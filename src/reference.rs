//! Reference tables of unit carbon factors, one per resource category, read
//! from fixed worksheets of a reference workbook, and the lookup of the factor
//! that applies to a line item.
use vstd::prelude::*;
use crate::category::Category;
use crate::import::{Worksheet, WorksheetView, worksheets_view, header_row, columns_spec, find_header};
use crate::number::{parse_fixed, parse_fixed_spec, scale, SCALE};
use crate::text::text_eq;

verus! {

/// One reference entry: a resource code and its carbon emission per unit,
/// in millionths.
pub struct ReferenceFactor {
    pub code: String,
    pub name: String,
    pub specification: String,
    pub unit: String,
    pub factor: i64,
}

pub struct ReferenceFactorView {
    pub code: Seq<char>,
    pub name: Seq<char>,
    pub specification: Seq<char>,
    pub unit: Seq<char>,
    pub factor: int,
}

impl View for ReferenceFactor {
    type V = ReferenceFactorView;

    open spec fn view(&self) -> ReferenceFactorView {
        ReferenceFactorView {
            code: self.code@,
            name: self.name@,
            specification: self.specification@,
            unit: self.unit@,
            factor: self.factor as int,
        }
    }
}

pub open spec fn table_view(t: Seq<ReferenceFactor>) -> Seq<ReferenceFactorView> {
    t.map_values(|f: ReferenceFactor| f@)
}

/// The three reference tables. Within each table that `load_references`
/// yields, codes are unique and non-empty (see `lemma_codes_unique`).
pub struct ReferenceTables {
    pub labor: Vec<ReferenceFactor>,
    pub material: Vec<ReferenceFactor>,
    pub machine: Vec<ReferenceFactor>,
}

pub struct ReferenceTablesView {
    pub labor: Seq<ReferenceFactorView>,
    pub material: Seq<ReferenceFactorView>,
    pub machine: Seq<ReferenceFactorView>,
}

impl View for ReferenceTables {
    type V = ReferenceTablesView;

    open spec fn view(&self) -> ReferenceTablesView {
        ReferenceTablesView {
            labor: table_view(self.labor@),
            material: table_view(self.material@),
            machine: table_view(self.machine@),
        }
    }
}

/// Why loading the reference workbook produced nothing.
#[derive(Clone, Copy, Debug, PartialEq, Eq, Structural)]
pub enum ReferenceError {
    /// None of the three reference worksheets is present with a header row.
    NoReferenceData,
}

/// The five columns a reference worksheet must have.
pub open spec fn reference_columns_spec() -> Seq<Seq<char>> {
    seq!["编码"@, "名称"@, "规格型号"@, "单位"@, "单位碳排放因子"@]
}

/// The worksheet name that holds the reference table of category `c`.
pub open spec fn reference_sheet_spec(c: Category) -> Seq<char> {
    match c {
        Category::Labor => "人工数据"@,
        Category::Material => "材料数据"@,
        _ => "机械数据"@,
    }
}

/// The text of cell `j` of `row` as it stands; empty where the row is shorter.
pub open spec fn raw_cell(row: Seq<Seq<char>>, j: int) -> Seq<char> {
    if 0 <= j < row.len() {
        row[j]
    } else {
        Seq::empty()
    }
}

/// A carbon factor read from text: its value, or one when it is no number.
pub open spec fn factor_of_text(t: Seq<char>) -> int {
    match parse_fixed_spec(t) {
        Some(v) => v,
        None => scale(),
    }
}

pub open spec fn entry_of(row: Seq<Seq<char>>, cols: Seq<usize>) -> ReferenceFactorView {
    ReferenceFactorView {
        code: raw_cell(row, cols[0] as int),
        name: raw_cell(row, cols[1] as int),
        specification: raw_cell(row, cols[2] as int),
        unit: raw_cell(row, cols[3] as int),
        factor: factor_of_text(raw_cell(row, cols[4] as int)),
    }
}

pub open spec fn has_code(t: Seq<ReferenceFactorView>, code: Seq<char>) -> bool {
    exists|i: int| 0 <= i < t.len() && (#[trigger] t[i]).code == code
}

/// The table after the first `k` data rows: rows with an empty code, and rows
/// whose code is already in the table, add nothing.
pub open spec fn load_rows(rows: Seq<Seq<Seq<char>>>, cols: Seq<usize>, k: int) -> Seq<
    ReferenceFactorView,
>
    decreases k,
{
    if k <= 0 {
        Seq::empty()
    } else {
        let t = load_rows(rows, cols, k - 1);
        let code = raw_cell(rows[k - 1], cols[0] as int);
        if code.len() == 0 || has_code(t, code) {
            t
        } else {
            t.push(entry_of(rows[k - 1], cols))
        }
    }
}

/// No two entries of a loaded table share a code, and no entry has an empty
/// code.
pub proof fn lemma_codes_unique(rows: Seq<Seq<Seq<char>>>, cols: Seq<usize>, k: int)
    ensures
        forall|i: int, j: int|
            0 <= i < j < load_rows(rows, cols, k).len() ==> #[trigger] load_rows(rows, cols, k)[i].code
                != #[trigger] load_rows(rows, cols, k)[j].code,
        forall|i: int|
            0 <= i < load_rows(rows, cols, k).len() ==> (#[trigger] load_rows(rows, cols, k)[i]).code.len()
                > 0,
    decreases k,
{
    if k > 0 {
        lemma_codes_unique(rows, cols, k - 1);
        let t = load_rows(rows, cols, k - 1);
        let code = raw_cell(rows[k - 1], cols[0] as int);
        if !(code.len() == 0 || has_code(t, code)) {
            let r = t.push(entry_of(rows[k - 1], cols));
            assert(r == load_rows(rows, cols, k));
            assert forall|i: int, j: int| 0 <= i < j < r.len() implies #[trigger] r[i].code
                != #[trigger] r[j].code by {
                if j == t.len() {
                    assert(r[i] == t[i]);
                    if t[i].code == code {
                        assert(has_code(t, code));
                    }
                } else {
                    assert(r[i] == t[i] && r[j] == t[j]);
                }
            }
            assert forall|i: int| 0 <= i < r.len() implies (#[trigger] r[i]).code.len() > 0 by {
                if i < t.len() {
                    assert(r[i] == t[i]);
                }
            }
        }
    }
}

/// The table a reference worksheet yields, if it has a header row.
pub open spec fn load_table_spec(rows: Seq<Seq<Seq<char>>>) -> Option<Seq<ReferenceFactorView>> {
    match header_row(rows, reference_columns_spec()) {
        Some(h) => Some(
            load_rows(
                rows.subrange(h + 1, rows.len() as int),
                columns_spec(rows[h], reference_columns_spec()),
                rows.len() - h - 1,
            ),
        ),
        None => None,
    }
}

/// The first worksheet at or after `k` named `name`.
pub open spec fn sheet_named_from(wss: Seq<WorksheetView>, name: Seq<char>, k: int) -> Option<int>
    decreases wss.len() - k,
{
    if k < 0 || k >= wss.len() {
        None
    } else if wss[k].name == name {
        Some(k)
    } else {
        sheet_named_from(wss, name, k + 1)
    }
}

/// The table of category `c` in a reference workbook, if its worksheet is
/// there and has a header row.
pub open spec fn workbook_table(wss: Seq<WorksheetView>, c: Category) -> Option<
    Seq<ReferenceFactorView>,
> {
    match sheet_named_from(wss, reference_sheet_spec(c), 0) {
        Some(k) => load_table_spec(wss[k].rows),
        None => None,
    }
}

pub open spec fn table_or_empty(t: Option<Seq<ReferenceFactorView>>) -> Seq<ReferenceFactorView> {
    match t {
        Some(t) => t,
        None => Seq::empty(),
    }
}

/// The factor of the first entry of `t` at or after `i` with code `code`.
pub open spec fn lookup_from(t: Seq<ReferenceFactorView>, code: Seq<char>, i: int) -> Option<int>
    decreases t.len() - i,
{
    if i < 0 || i >= t.len() {
        None
    } else if t[i].code == code {
        Some(t[i].factor)
    } else {
        lookup_from(t, code, i + 1)
    }
}

pub open spec fn lookup_spec(t: Seq<ReferenceFactorView>, code: Seq<char>) -> Option<int> {
    lookup_from(t, code, 0)
}

/// A stored code without its category letter.
pub open spec fn strip_prefix(code: Seq<char>) -> Seq<char> {
    if code.len() > 0 {
        code.drop_first()
    } else {
        code
    }
}

/// The carbon factor, in millionths, that applies to an item of category `c`
/// with stored code `code`: the factor of its reference entry, or one where
/// the item is uncategorized or its code has no entry.
pub open spec fn factor_spec(refs: ReferenceTablesView, code: Seq<char>, c: Category) -> int {
    let t = match c {
        Category::Labor => Some(refs.labor),
        Category::Material => Some(refs.material),
        Category::Machine => Some(refs.machine),
        Category::Uncategorized => None,
    };
    match t {
        Some(t) => match lookup_spec(t, strip_prefix(code)) {
            Some(f) => f,
            None => scale(),
        },
        None => scale(),
    }
}

/// The names of the five reference columns.
pub fn reference_columns() -> (r: Vec<String>)
    ensures
        r.deep_view() == reference_columns_spec(),
{
    let r = vec![
        String::from_str("编码"),
        String::from_str("名称"),
        String::from_str("规格型号"),
        String::from_str("单位"),
        String::from_str("单位碳排放因子"),
    ];
    assert(r.deep_view() =~= reference_columns_spec());
    r
}

fn raw_cell_exec(row: &Vec<String>, j: usize) -> (r: String)
    ensures
        r@ == raw_cell(row.deep_view(), j as int),
{
    if j < row.len() {
        row[j].clone()
    } else {
        String::new()
    }
}

/// A carbon factor read from text: its value, or one when it is no number.
pub fn factor_from_text(t: &str) -> (r: i64)
    ensures
        r == factor_of_text(t@),
{
    match parse_fixed(t) {
        Some(v) => v,
        None => SCALE,
    }
}

/// Whether some entry of `t` has code `code`.
pub fn contains_code(t: &Vec<ReferenceFactor>, code: &str) -> (r: bool)
    ensures
        r == has_code(table_view(t@), code@),
{
    let ghost tv = table_view(t@);
    let mut i: usize = 0;
    while i < t.len()
        invariant
            tv == table_view(t@),
            i <= t.len(),
            forall|j: int| 0 <= j < i ==> (#[trigger] tv[j]).code != code@,
        decreases t.len() - i,
    {
        if text_eq(t[i].code.as_str(), code) {
            assert(tv[i as int].code == code@);
            return true;
        }
        i = i + 1;
    }
    false
}

/// The reference table in the data rows `rows[start..]`, whose five columns
/// are `cols`.
pub fn load_rows_exec(rows: &Vec<Vec<String>>, start: usize, cols: &Vec<usize>) -> (r: Vec<
    ReferenceFactor,
>)
    requires
        cols@.len() == 5,
        start <= rows.len(),
    ensures
        table_view(r@) == load_rows(
            rows.deep_view().subrange(start as int, rows.len() as int),
            cols@,
            rows.len() - start,
        ),
{
    let ghost g = rows.deep_view();
    let ghost sub = g.subrange(start as int, rows.len() as int);
    let mut t: Vec<ReferenceFactor> = Vec::new();
    let mut k: usize = start;
    assert(table_view(t@) =~= Seq::<ReferenceFactorView>::empty());
    while k < rows.len()
        invariant
            g == rows.deep_view(),
            sub == g.subrange(start as int, rows.len() as int),
            cols@.len() == 5,
            start <= k <= rows.len(),
            table_view(t@) == load_rows(sub, cols@, k - start),
        decreases rows.len() - k,
    {
        let row = &rows[k];
        assert(sub[k - start] == row.deep_view());
        let code = raw_cell_exec(row, cols[0]);
        if !code.as_str().is_empty() && !contains_code(&t, code.as_str()) {
            let factor_text = raw_cell_exec(row, cols[4]);
            let e = ReferenceFactor {
                code,
                name: raw_cell_exec(row, cols[1]),
                specification: raw_cell_exec(row, cols[2]),
                unit: raw_cell_exec(row, cols[3]),
                factor: factor_from_text(factor_text.as_str()),
            };
            let ghost before = t@;
            t.push(e);
            assert(table_view(t@) =~= table_view(before).push(e@));
        }
        k = k + 1;
    }
    t
}

/// The reference table of a worksheet: `None` when no row names all five
/// reference columns.
pub fn load_table(rows: &Vec<Vec<String>>) -> (r: Option<Vec<ReferenceFactor>>)
    ensures
        r matches Some(t) ==> load_table_spec(rows.deep_view()) == Some(table_view(t@)),
        r is None ==> load_table_spec(rows.deep_view()) is None,
{
    let names = reference_columns();
    match find_header(rows, &names) {
        Some((h, cols)) => {
            let n = rows.len();
            assert(h < n);
            Some(load_rows_exec(rows, h + 1, &cols))
        },
        None => None,
    }
}

fn find_sheet(wss: &Vec<Worksheet>, name: &str) -> (r: Option<usize>)
    ensures
        r matches Some(k) ==> sheet_named_from(worksheets_view(wss@), name@, 0) == Some(k as int)
            && k < wss@.len(),
        r is None ==> sheet_named_from(worksheets_view(wss@), name@, 0) is None,
{
    let ghost wv = worksheets_view(wss@);
    let mut k: usize = 0;
    while k < wss.len()
        invariant
            wv == worksheets_view(wss@),
            k <= wss.len(),
            sheet_named_from(wv, name@, 0) == sheet_named_from(wv, name@, k as int),
        decreases wss.len() - k,
    {
        assert(wv[k as int] == wss@[k as int]@);
        if text_eq(wss[k].name.as_str(), name) {
            return Some(k);
        }
        k = k + 1;
    }
    None
}

fn workbook_table_exec(wss: &Vec<Worksheet>, c: Category) -> (r: Option<Vec<ReferenceFactor>>)
    ensures
        r matches Some(t) ==> workbook_table(worksheets_view(wss@), c) == Some(table_view(t@)),
        r is None ==> workbook_table(worksheets_view(wss@), c) is None,
{
    let name = match c {
        Category::Labor => "人工数据",
        Category::Material => "材料数据",
        _ => "机械数据",
    };
    assert(name@ == reference_sheet_spec(c));
    match find_sheet(wss, name) {
        Some(k) => {
            assert(worksheets_view(wss@)[k as int] == wss@[k as int]@);
            load_table(&wss[k].rows)
        },
        None => None,
    }
}

/// Loads the labor, material and machine tables from the worksheets named
/// `人工数据`, `材料数据` and `机械数据`. A table whose worksheet is missing or
/// has no header row is empty; when that holds of all three, nothing is
/// loaded and the result is `NoReferenceData`.
pub fn load_references(wss: &Vec<Worksheet>) -> (r: Result<ReferenceTables, ReferenceError>)
    ensures
        ({
            let wv = worksheets_view(wss@);
            let l = workbook_table(wv, Category::Labor);
            let m = workbook_table(wv, Category::Material);
            let e = workbook_table(wv, Category::Machine);
            &&& (r is Err) <==> (l is None && m is None && e is None)
            &&& r matches Err(err) ==> err == ReferenceError::NoReferenceData
            &&& r matches Ok(t) ==> t@ == (ReferenceTablesView {
                labor: table_or_empty(l),
                material: table_or_empty(m),
                machine: table_or_empty(e),
            })
        }),
{
    let l = workbook_table_exec(wss, Category::Labor);
    let m = workbook_table_exec(wss, Category::Material);
    let e = workbook_table_exec(wss, Category::Machine);
    if l.is_none() && m.is_none() && e.is_none() {
        return Err(ReferenceError::NoReferenceData);
    }
    let labor = match l {
        Some(t) => t,
        None => {
            let t = Vec::new();
            assert(table_view(t@) =~= Seq::<ReferenceFactorView>::empty());
            t
        },
    };
    let material = match m {
        Some(t) => t,
        None => {
            let t = Vec::new();
            assert(table_view(t@) =~= Seq::<ReferenceFactorView>::empty());
            t
        },
    };
    let machine = match e {
        Some(t) => t,
        None => {
            let t = Vec::new();
            assert(table_view(t@) =~= Seq::<ReferenceFactorView>::empty());
            t
        },
    };
    let r = ReferenceTables { labor, material, machine };
    assert(r@.labor == table_or_empty(workbook_table(worksheets_view(wss@), Category::Labor)));
    assert(r@.material == table_or_empty(
        workbook_table(worksheets_view(wss@), Category::Material),
    ));
    assert(r@.machine == table_or_empty(workbook_table(worksheets_view(wss@), Category::Machine)));
    Ok(r)
}

/// The factor of the first entry of `t` with code `code`.
pub fn lookup(t: &Vec<ReferenceFactor>, code: &str) -> (r: Option<i64>)
    ensures
        r matches Some(f) ==> lookup_spec(table_view(t@), code@) == Some(f as int),
        r is None ==> lookup_spec(table_view(t@), code@) is None,
{
    let ghost tv = table_view(t@);
    let mut i: usize = 0;
    while i < t.len()
        invariant
            tv == table_view(t@),
            i <= t.len(),
            lookup_spec(tv, code@) == lookup_from(tv, code@, i as int),
        decreases t.len() - i,
    {
        if text_eq(t[i].code.as_str(), code) {
            return Some(t[i].factor);
        }
        i = i + 1;
    }
    None
}

impl ReferenceTables {
    /// Tables with no entries.
    pub fn empty() -> (r: ReferenceTables)
        ensures
            r@.labor.len() == 0,
            r@.material.len() == 0,
            r@.machine.len() == 0,
    {
        ReferenceTables { labor: Vec::new(), material: Vec::new(), machine: Vec::new() }
    }

    /// The carbon factor, in millionths, that applies to an item of category
    /// `c` with stored code `code` (see `factor_spec`).
    pub fn factor_for(&self, code: &str, c: Category) -> (r: i64)
        ensures
            r == factor_spec(self@, code@, c),
    {
        let t = match c {
            Category::Labor => &self.labor,
            Category::Material => &self.material,
            Category::Machine => &self.machine,
            Category::Uncategorized => {
                return SCALE;
            },
        };
        let n = code.unicode_len();
        let key = if n > 0 {
            code.substring_char(1, n)
        } else {
            code
        };
        assert(key@ == strip_prefix(code@)) by {
            if n > 0 {
                assert(code@.subrange(1, n as int) =~= code@.drop_first());
            }
        }
        match lookup(t, key) {
            Some(f) => f,
            None => SCALE,
        }
    }
}

} // verus!
