//! The aggregation of imported sheets into result rows: one header row per
//! engineering type, in ascending order of type, each followed by a summary
//! row for every sheet of that type, in import order.
use vstd::prelude::*;
use crate::category::Category;
use crate::detail::{SubItemRow, SubItemRowView, details_view, sheet_details_spec, details_with_totals};
use crate::emission::{Totals, category_total, sums_in_range, sheet_totals, within_limit, EMISSION_LIMIT};
use crate::format::{nat_text, count_text};
use crate::group::{
    type_of, short_of, space_from, group_keys, sheet_type, sheet_short_name, sheet_has_space,
    insert_type, sorted, lemma_group_keys,
};
use crate::import::{Sheet, SheetView, sheets_view};
use crate::reference::{ReferenceTables, ReferenceTablesView};
use crate::text::{trim, trimmed, text_eq};

verus! {

/// What a result row is.
#[derive(Clone, Copy, Debug, PartialEq, Eq, Structural)]
pub enum RowKind {
    /// Names an engineering type; its numeric fields are blank.
    TypeHeader,
    /// Sums up one sheet.
    SheetSummary,
}

/// One row of the result table. Emissions are in millionths of millionths;
/// `volume` is the placeholder for the engineering volume, which the user
/// supplies separately (see `present::VolumeOverrides`); `sheet` is the full
/// name of the sheet a summary row sums up, empty on a type header.
pub struct ResultRow {
    pub kind: RowKind,
    pub serial: String,
    pub name: String,
    pub sheet: String,
    pub unit: String,
    pub volume: String,
    pub labor: i128,
    pub material: i128,
    pub machine: i128,
    pub subtotal: i128,
}

pub struct ResultRowView {
    pub kind: RowKind,
    pub serial: Seq<char>,
    pub name: Seq<char>,
    pub sheet: Seq<char>,
    pub unit: Seq<char>,
    pub volume: Seq<char>,
    pub labor: int,
    pub material: int,
    pub machine: int,
    pub subtotal: int,
}

impl View for ResultRow {
    type V = ResultRowView;

    open spec fn view(&self) -> ResultRowView {
        ResultRowView {
            kind: self.kind,
            serial: self.serial@,
            name: self.name@,
            sheet: self.sheet@,
            unit: self.unit@,
            volume: self.volume@,
            labor: self.labor as int,
            material: self.material as int,
            machine: self.machine as int,
            subtotal: self.subtotal as int,
        }
    }
}

pub open spec fn rows_view(rows: Seq<ResultRow>) -> Seq<ResultRowView> {
    rows.map_values(|r: ResultRow| r@)
}

/// The result rows and, parallel to the summary rows, the drill-down rows of
/// every sheet in the same order.
pub struct Aggregation {
    pub rows: Vec<ResultRow>,
    pub details: Vec<SubItemRow>,
}

/// Why an aggregation produced nothing.
#[derive(Clone, Copy, Debug, PartialEq, Eq, Structural)]
pub enum AggregateError {
    /// A running emission sum of some sheet leaves the representable range.
    EmissionOverflow,
}

/// The text that stands in the volume field until the user fills it in.
pub open spec fn placeholder_spec() -> Seq<char> {
    "右键编辑"@
}

/// The unit of the engineering volume of a sheet.
pub open spec fn volume_unit_spec() -> Seq<char> {
    "m2"@
}

/// The serial of the `g`-th type header: 一, 二, 三, then decimal numbers.
pub open spec fn ordinal_spec(g: nat) -> Seq<char> {
    if g == 1 {
        "一"@
    } else if g == 2 {
        "二"@
    } else if g == 3 {
        "三"@
    } else {
        nat_text(g)
    }
}

pub open spec fn type_header_spec(key: Seq<char>, g: nat) -> ResultRowView {
    ResultRowView {
        kind: RowKind::TypeHeader,
        serial: ordinal_spec(g),
        name: key,
        sheet: Seq::empty(),
        unit: Seq::empty(),
        volume: Seq::empty(),
        labor: 0,
        material: 0,
        machine: 0,
        subtotal: 0,
    }
}

/// The summary row of `sheet`, numbered `n` within its type.
pub open spec fn summary_spec(refs: ReferenceTablesView, sheet: SheetView, n: nat) -> ResultRowView {
    let l = category_total(refs, sheet.items, Category::Labor);
    let m = category_total(refs, sheet.items, Category::Material);
    let e = category_total(refs, sheet.items, Category::Machine);
    ResultRowView {
        kind: RowKind::SheetSummary,
        serial: nat_text(n),
        name: trimmed(short_of(sheet.name)),
        sheet: sheet.name,
        unit: volume_unit_spec(),
        volume: placeholder_spec(),
        labor: l,
        material: m,
        machine: e,
        subtotal: l + m + e,
    }
}

/// The summary rows and drill-down rows of the sheets of type `key` among the
/// first `k` sheets.
pub open spec fn group_part(
    refs: ReferenceTablesView,
    sheets: Seq<SheetView>,
    key: Seq<char>,
    k: int,
) -> (Seq<ResultRowView>, Seq<SubItemRowView>)
    decreases k,
{
    if k <= 0 {
        (Seq::empty(), Seq::empty())
    } else {
        let p = group_part(refs, sheets, key, k - 1);
        if type_of(sheets[k - 1].name) == key {
            (
                p.0.push(summary_spec(refs, sheets[k - 1], (p.0.len() + 1) as nat)),
                p.1 + sheet_details_spec(refs, sheets[k - 1].items),
            )
        } else {
            p
        }
    }
}

pub open spec fn sheet_names(sheets: Seq<SheetView>) -> Seq<Seq<char>> {
    Seq::new(sheets.len(), |i: int| sheets[i].name)
}

/// The engineering types of `sheets`, ascending and without repeats.
pub open spec fn keys_of(sheets: Seq<SheetView>) -> Seq<Seq<char>> {
    group_keys(sheet_names(sheets), sheets.len() as int)
}

/// The rows of the first `g` type groups.
pub open spec fn assemble(
    refs: ReferenceTablesView,
    sheets: Seq<SheetView>,
    keys: Seq<Seq<char>>,
    g: int,
) -> (Seq<ResultRowView>, Seq<SubItemRowView>)
    decreases g,
{
    if g <= 0 {
        (Seq::empty(), Seq::empty())
    } else {
        let p = assemble(refs, sheets, keys, g - 1);
        let q = group_part(refs, sheets, keys[g - 1], sheets.len() as int);
        (p.0.push(type_header_spec(keys[g - 1], g as nat)) + q.0, p.1 + q.1)
    }
}

/// The result rows and drill-down rows of `sheets`.
pub open spec fn aggregate_spec(refs: ReferenceTablesView, sheets: Seq<SheetView>) -> (
    Seq<ResultRowView>,
    Seq<SubItemRowView>,
) {
    let keys = keys_of(sheets);
    assemble(refs, sheets, keys, keys.len() as int)
}

/// Whether a row's subtotal is small enough for its total emission to be
/// computed: at most three times `EMISSION_LIMIT`, as aggregation ensures.
pub open spec fn subtotal_in_range(row: ResultRowView) -> bool {
    -3 * (EMISSION_LIMIT as int) <= row.subtotal <= 3 * (EMISSION_LIMIT as int)
}

/// Whether every sheet's running emission sums stay in range.
pub open spec fn all_in_range(refs: ReferenceTablesView, sheets: Seq<SheetView>) -> bool {
    forall|i: int| 0 <= i < sheets.len() ==> sums_in_range(refs, #[trigger] sheets[i].items)
}

/// A summary row's category fields are the category totals of its sheet and
/// its subtotal is their sum.
pub proof fn lemma_summary_sums(refs: ReferenceTablesView, sheet: SheetView, n: nat)
    ensures
        summary_spec(refs, sheet, n).labor == category_total(refs, sheet.items, Category::Labor),
        summary_spec(refs, sheet, n).material == category_total(
            refs,
            sheet.items,
            Category::Material,
        ),
        summary_spec(refs, sheet, n).machine == category_total(refs, sheet.items, Category::Machine),
        summary_spec(refs, sheet, n).subtotal == summary_spec(refs, sheet, n).labor + summary_spec(
            refs,
            sheet,
            n,
        ).material + summary_spec(refs, sheet, n).machine,
{
}

/// Grouping is deterministic: the type groups come in strictly ascending
/// code-point order of type, one group per type that some sheet has and none
/// other; within a group the sheets keep their import order (see
/// `group_part`).
pub proof fn lemma_grouping_determinism(sheets: Seq<SheetView>)
    ensures
        sorted(keys_of(sheets)),
        forall|y: Seq<char>|
            keys_of(sheets).contains(y) <==> exists|j: int|
                0 <= j < sheets.len() && #[trigger] type_of(sheets[j].name) == y,
{
    let names = sheet_names(sheets);
    lemma_group_keys(names, sheets.len() as int);
    assert forall|y: Seq<char>|
        keys_of(sheets).contains(y) <==> exists|j: int|
            0 <= j < sheets.len() && #[trigger] type_of(sheets[j].name) == y by {
        if keys_of(sheets).contains(y) {
            let j = choose|j: int| 0 <= j < sheets.len() && #[trigger] type_of(names[j]) == y;
            assert(names[j] == sheets[j].name);
        }
        if exists|j: int| 0 <= j < sheets.len() && #[trigger] type_of(sheets[j].name) == y {
            let j = choose|j: int| 0 <= j < sheets.len() && #[trigger] type_of(sheets[j].name) == y;
            assert(names[j] == sheets[j].name);
            assert(type_of(names[j]) == y);
        }
    }
}

/// With no sheets, aggregation succeeds with no result rows and no
/// drill-down rows.
pub proof fn lemma_empty_input(refs: ReferenceTablesView)
    ensures
        all_in_range(refs, Seq::empty()),
        aggregate_spec(refs, Seq::empty()).0.len() == 0,
        aggregate_spec(refs, Seq::empty()).1.len() == 0,
{
    assert(keys_of(Seq::<SheetView>::empty()) == Seq::<Seq<char>>::empty());
}

/// The first sheet at or after `k` whose name has a space and whose short
/// name is `short`.
pub open spec fn sheet_by_short_from(sheets: Seq<SheetView>, short: Seq<char>, k: int) -> Option<int>
    decreases sheets.len() - k,
{
    if k < 0 || k >= sheets.len() {
        None
    } else if space_from(sheets[k].name, 0) is Some && short_of(sheets[k].name) == short {
        Some(k)
    } else {
        sheet_by_short_from(sheets, short, k + 1)
    }
}

/// The sheet that a summary row with name `short` stands for: the first sheet
/// whose name has a space and whose short name is `short`.
pub fn find_sheet_by_short_name(sheets: &Vec<Sheet>, short: &str) -> (r: Option<usize>)
    ensures
        r matches Some(k) ==> sheet_by_short_from(sheets_view(sheets@), short@, 0) == Some(k as int)
            && k < sheets@.len(),
        r is None ==> sheet_by_short_from(sheets_view(sheets@), short@, 0) is None,
{
    let ghost sv = sheets_view(sheets@);
    let mut k: usize = 0;
    while k < sheets.len()
        invariant
            sv == sheets_view(sheets@),
            k <= sheets.len(),
            sheet_by_short_from(sv, short@, 0) == sheet_by_short_from(sv, short@, k as int),
        decreases sheets.len() - k,
    {
        assert(sv[k as int] == sheets@[k as int]@);
        let name = sheets[k].name.as_str();
        if sheet_has_space(name) {
            let s = sheet_short_name(name);
            if text_eq(s.as_str(), short) {
                return Some(k);
            }
        }
        k = k + 1;
    }
    None
}

fn ordinal(g: usize) -> (r: String)
    ensures
        r@ == ordinal_spec(g as nat),
{
    if g == 1 {
        String::from_str("一")
    } else if g == 2 {
        String::from_str("二")
    } else if g == 3 {
        String::from_str("三")
    } else {
        count_text(g)
    }
}

fn type_header(key: String, g: usize) -> (r: ResultRow)
    ensures
        r@ == type_header_spec(key@, g as nat),
{
    ResultRow {
        kind: RowKind::TypeHeader,
        serial: ordinal(g),
        name: key,
        sheet: String::new(),
        unit: String::new(),
        volume: String::new(),
        labor: 0,
        material: 0,
        machine: 0,
        subtotal: 0,
    }
}

fn summary_row(sheet: &Sheet, refs: &ReferenceTables, t: Totals, n: usize) -> (r: ResultRow)
    requires
        t.labor == category_total(refs@, sheet@.items, Category::Labor),
        t.material == category_total(refs@, sheet@.items, Category::Material),
        t.machine == category_total(refs@, sheet@.items, Category::Machine),
        within_limit(t.labor as int),
        within_limit(t.material as int),
        within_limit(t.machine as int),
    ensures
        r@ == summary_spec(refs@, sheet@, n as nat),
{
    let short = sheet_short_name(sheet.name.as_str());
    ResultRow {
        kind: RowKind::SheetSummary,
        serial: count_text(n),
        name: trim(short.as_str()),
        sheet: sheet.name.clone(),
        unit: String::from_str("m2"),
        volume: String::from_str("右键编辑"),
        labor: t.labor,
        material: t.material,
        machine: t.machine,
        subtotal: t.subtotal(),
    }
}

/// Aggregates the imported sheets: see `aggregate_spec`. Fails with
/// `EmissionOverflow` exactly when some sheet's running emission sums leave
/// the representable range, that is pass `EMISSION_LIMIT` (10^16 units of
/// emission) in magnitude: then no sheet is aggregated. No sheets give no
/// rows.
pub fn aggregate(sheets: &Vec<Sheet>, refs: &ReferenceTables) -> (r: Result<
    Aggregation,
    AggregateError,
>)
    ensures
        r is Ok <==> all_in_range(refs@, sheets_view(sheets@)),
        r matches Ok(a) ==> {
            &&& rows_view(a.rows@) == aggregate_spec(refs@, sheets_view(sheets@)).0
            &&& details_view(a.details@) == aggregate_spec(refs@, sheets_view(sheets@)).1
            &&& forall|i: int| 0 <= i < a.rows@.len() ==> subtotal_in_range(#[trigger] a.rows@[i]@)
        },
        r matches Err(e) ==> e == AggregateError::EmissionOverflow,
{
    let ghost sv = sheets_view(sheets@);
    let ghost names = sheet_names(sv);
    let mut totals: Vec<Totals> = Vec::new();
    let mut types: Vec<String> = Vec::new();
    let mut k: usize = 0;
    while k < sheets.len()
        invariant
            sv == sheets_view(sheets@),
            names == sheet_names(sv),
            k <= sheets.len(),
            totals@.len() == k,
            types@.len() == k,
            forall|j: int|
                0 <= j < k ==> {
                    &&& sums_in_range(refs@, #[trigger] sv[j].items)
                    &&& totals@[j].labor == category_total(refs@, sv[j].items, Category::Labor)
                    &&& totals@[j].material == category_total(
                        refs@,
                        sv[j].items,
                        Category::Material,
                    )
                    &&& totals@[j].machine == category_total(refs@, sv[j].items, Category::Machine)
                    &&& types@[j]@ == type_of(names[j])
                },
        decreases sheets.len() - k,
    {
        assert(sv[k as int] == sheets@[k as int]@);
        match sheet_totals(&sheets[k].items, refs) {
            Some(t) => {
                totals.push(t);
            },
            None => {
                assert(!all_in_range(refs@, sv)) by {
                    if all_in_range(refs@, sv) {
                        assert(sums_in_range(refs@, sv[k as int].items));
                    }
                }
                return Err(AggregateError::EmissionOverflow);
            },
        }
        types.push(sheet_type(sheets[k].name.as_str()));
        k = k + 1;
    }
    assert(all_in_range(refs@, sv));
    assert forall|j: int| 0 <= j < types@.len() implies #[trigger] types@[j]@ == type_of(names[j]) by {
        assert(sums_in_range(refs@, sv[j].items));
    }
    let mut keys: Vec<String> = Vec::new();
    k = 0;
    assert(keys.deep_view() =~= group_keys(names, 0));
    while k < types.len()
        invariant
            names == sheet_names(sv),
            sv == sheets_view(sheets@),
            types@.len() == sheets@.len(),
            k <= types.len(),
            forall|j: int| 0 <= j < types@.len() ==> #[trigger] types@[j]@ == type_of(names[j]),
            keys.deep_view() == group_keys(names, k as int),
        decreases types.len() - k,
    {
        assert(types@[k as int]@ == type_of(names[k as int]));
        insert_type(&mut keys, types[k].clone());
        k = k + 1;
    }
    let ghost kv = keys.deep_view();
    assert(kv == keys_of(sv));
    let mut rows: Vec<ResultRow> = Vec::new();
    let mut details: Vec<SubItemRow> = Vec::new();
    assert(rows_view(rows@) =~= assemble(refs@, sv, kv, 0).0);
    assert(details_view(details@) =~= assemble(refs@, sv, kv, 0).1);
    let mut g: usize = 0;
    while g < keys.len()
        invariant
            sv == sheets_view(sheets@),
            names == sheet_names(sv),
            kv == keys.deep_view(),
            totals@.len() == sheets@.len(),
            types@.len() == sheets@.len(),
            forall|j: int|
                0 <= j < sheets@.len() ==> {
                    &&& sums_in_range(refs@, #[trigger] sv[j].items)
                    &&& totals@[j].labor == category_total(refs@, sv[j].items, Category::Labor)
                    &&& totals@[j].material == category_total(
                        refs@,
                        sv[j].items,
                        Category::Material,
                    )
                    &&& totals@[j].machine == category_total(refs@, sv[j].items, Category::Machine)
                    &&& types@[j]@ == type_of(names[j])
                },
            g <= keys.len(),
            rows_view(rows@) == assemble(refs@, sv, kv, g as int).0,
            details_view(details@) == assemble(refs@, sv, kv, g as int).1,
            forall|i: int| 0 <= i < rows@.len() ==> subtotal_in_range(#[trigger] rows@[i]@),
        decreases keys.len() - g,
    {
        let ghost prev = assemble(refs@, sv, kv, g as int);
        let ghost key = kv[g as int];
        let ghost before = rows@;
        rows.push(type_header(keys[g].clone(), g + 1));
        assert(rows_view(rows@) =~= rows_view(before).push(type_header_spec(key, (g + 1) as nat)));
        let ghost head = rows_view(rows@);
        let mut n: usize = 0;
        let mut k: usize = 0;
        assert(rows_view(rows@) =~= head + group_part(refs@, sv, key, 0).0);
        assert(details_view(details@) =~= prev.1 + group_part(refs@, sv, key, 0).1);
        while k < sheets.len()
            invariant
                sv == sheets_view(sheets@),
                names == sheet_names(sv),
                kv == keys.deep_view(),
                g < keys.len(),
                key == kv[g as int],
                keys@[g as int]@ == key,
                totals@.len() == sheets@.len(),
                types@.len() == sheets@.len(),
                forall|j: int|
                    0 <= j < sheets@.len() ==> {
                        &&& sums_in_range(refs@, #[trigger] sv[j].items)
                        &&& totals@[j].labor == category_total(refs@, sv[j].items, Category::Labor)
                        &&& totals@[j].material == category_total(
                            refs@,
                            sv[j].items,
                            Category::Material,
                        )
                        &&& totals@[j].machine == category_total(
                            refs@,
                            sv[j].items,
                            Category::Machine,
                        )
                        &&& types@[j]@ == type_of(names[j])
                    },
                k <= sheets.len(),
                n == group_part(refs@, sv, key, k as int).0.len(),
                n <= k,
                rows_view(rows@) == head + group_part(refs@, sv, key, k as int).0,
                details_view(details@) == prev.1 + group_part(refs@, sv, key, k as int).1,
                forall|i: int| 0 <= i < rows@.len() ==> subtotal_in_range(#[trigger] rows@[i]@),
            decreases sheets.len() - k,
        {
            let sheet = &sheets[k];
            assert(sv[k as int] == sheet@);
            assert(names[k as int] == sheet@.name);
            assert(sums_in_range(refs@, sv[k as int].items));
            if text_eq(types[k].as_str(), keys[g].as_str()) {
                let t = totals[k];
                proof {
                    let len = sheet@.items.len() as int;
                    assert(within_limit(category_total(refs@, sheet@.items, Category::Labor)));
                    assert(within_limit(category_total(refs@, sheet@.items, Category::Material)));
                    assert(within_limit(category_total(refs@, sheet@.items, Category::Machine)));
                }
                let ghost rb = rows@;
                rows.push(summary_row(sheet, refs, t, n + 1));
                assert(rows_view(rows@) =~= rows_view(rb).push(
                    summary_spec(refs@, sheet@, (n + 1) as nat),
                ));
                let ghost db = details@;
                let mut d = details_with_totals(&sheet.items, refs, t);
                details.append(&mut d);
                assert(details_view(details@) =~= details_view(db) + sheet_details_spec(
                    refs@,
                    sheet@.items,
                ));
                n = n + 1;
            }
            k = k + 1;
        }
        assert(rows_view(rows@) =~= assemble(refs@, sv, kv, g + 1).0);
        assert(details_view(details@) =~= assemble(refs@, sv, kv, g + 1).1);
        g = g + 1;
    }
    Ok(Aggregation { rows, details })
}

} // verus!
