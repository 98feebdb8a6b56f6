//! Reading bill-of-quantities worksheets into categorized line items.
//!
//! A worksheet arrives as rows of cell text. Its header row is the first row
//! that names every required column; the rows after it are line items,
//! interleaved with marker rows that switch the category of the items below.
use vstd::prelude::*;
use crate::category::{Category, classify_spec, prefix_spec, is_prefix_letter};
use crate::text::{trim, trimmed, text_eq, push_all};

verus! {

/// One line item of a bill of quantities, as imported.
pub struct LineItem {
    pub serial: String,
    pub code: String,
    pub description: String,
    pub unit: String,
    pub quantity: String,
    pub unit_price: String,
    pub line_total: String,
    pub category: Category,
}

/// The text content of a `LineItem`.
pub struct LineItemView {
    pub serial: Seq<char>,
    pub code: Seq<char>,
    pub description: Seq<char>,
    pub unit: Seq<char>,
    pub quantity: Seq<char>,
    pub unit_price: Seq<char>,
    pub line_total: Seq<char>,
    pub category: Category,
}

impl View for LineItem {
    type V = LineItemView;

    open spec fn view(&self) -> LineItemView {
        LineItemView {
            serial: self.serial@,
            code: self.code@,
            description: self.description@,
            unit: self.unit@,
            quantity: self.quantity@,
            unit_price: self.unit_price@,
            line_total: self.line_total@,
            category: self.category,
        }
    }
}

pub open spec fn items_view(items: Seq<LineItem>) -> Seq<LineItemView> {
    items.map_values(|x: LineItem| x@)
}

/// A worksheet as read from a workbook: its name and the text of its cells.
pub struct Worksheet {
    pub name: String,
    pub rows: Vec<Vec<String>>,
}

pub struct WorksheetView {
    pub name: Seq<char>,
    pub rows: Seq<Seq<Seq<char>>>,
}

impl View for Worksheet {
    type V = WorksheetView;

    open spec fn view(&self) -> WorksheetView {
        WorksheetView { name: self.name@, rows: self.rows.deep_view() }
    }
}

/// An imported sheet: its name and its line items in row order.
pub struct Sheet {
    pub name: String,
    pub items: Vec<LineItem>,
}

pub struct SheetView {
    pub name: Seq<char>,
    pub items: Seq<LineItemView>,
}

impl View for Sheet {
    type V = SheetView;

    open spec fn view(&self) -> SheetView {
        SheetView { name: self.name@, items: items_view(self.items@) }
    }
}

pub open spec fn sheets_view(sheets: Seq<Sheet>) -> Seq<SheetView> {
    sheets.map_values(|s: Sheet| s@)
}

/// Why a workbook import produced nothing.
#[derive(Clone, Copy, Debug, PartialEq, Eq, Structural)]
pub enum ImportError {
    /// No worksheet has a row that names every required column.
    NoValidSheet,
}

/// The seven columns a bill-of-quantities sheet must have, in the order the
/// fields of a `LineItem` take them.
pub open spec fn required_spec() -> Seq<Seq<char>> {
    seq!["序号"@, "编码"@, "名称及规格"@, "单位"@, "数量"@, "市场价"@, "合计"@]
}

/// The trimmed text of cell `j` of `row`; empty where the row is shorter.
pub open spec fn cell_spec(row: Seq<Seq<char>>, j: int) -> Seq<char> {
    if 0 <= j < row.len() {
        trimmed(row[j])
    } else {
        Seq::empty()
    }
}

/// The first column at or after `j` whose trimmed text is `name`.
pub open spec fn column_from(row: Seq<Seq<char>>, name: Seq<char>, j: int) -> Option<int>
    decreases row.len() - j,
{
    if j < 0 || j >= row.len() {
        None
    } else if trimmed(row[j]) == name {
        Some(j)
    } else {
        column_from(row, name, j + 1)
    }
}

/// The first column of `row` whose trimmed text is `name`.
pub open spec fn column_of(row: Seq<Seq<char>>, name: Seq<char>) -> Option<int> {
    column_from(row, name, 0)
}

/// Whether `row` names every one of `names`.
pub open spec fn has_all(row: Seq<Seq<char>>, names: Seq<Seq<char>>) -> bool {
    forall|k: int| 0 <= k < names.len() ==> (#[trigger] column_of(row, names[k])) is Some
}

/// The first row at or after `h` that names every one of `names`.
pub open spec fn header_from(rows: Seq<Seq<Seq<char>>>, names: Seq<Seq<char>>, h: int) -> Option<
    int,
>
    decreases rows.len() - h,
{
    if h < 0 || h >= rows.len() {
        None
    } else if has_all(rows[h], names) {
        Some(h)
    } else {
        header_from(rows, names, h + 1)
    }
}

/// The header row: the first row that names every one of `names`.
pub open spec fn header_row(rows: Seq<Seq<Seq<char>>>, names: Seq<Seq<char>>) -> Option<int> {
    header_from(rows, names, 0)
}

/// For each of `names`, the column of `row` that holds it.
pub open spec fn columns_spec(row: Seq<Seq<char>>, names: Seq<Seq<char>>) -> Seq<usize> {
    Seq::new(names.len(), |k: int| (column_of(row, names[k])->0) as usize)
}

/// Whether every required cell of `row` is empty.
pub open spec fn row_is_blank(row: Seq<Seq<char>>, cols: Seq<usize>) -> bool {
    forall|k: int| 0 <= k < 7 ==> (#[trigger] cell_spec(row, cols[k] as int)).len() == 0
}

/// A code as stored: a non-empty code that does not already start with one of
/// the three prefix letters gets the letter of its category in front.
pub open spec fn prefixed_code(raw: Seq<char>, cat: Category) -> Seq<char> {
    if raw.len() > 0 && !is_prefix_letter(raw[0]) {
        match prefix_spec(cat) {
            Some(p) => seq![p] + raw,
            None => raw,
        }
    } else {
        raw
    }
}

/// Prefixing is idempotent: a code that already starts with a prefix letter
/// is kept under any category, and a code prefixed under a category that has
/// a letter is kept when prefixed again.
pub proof fn lemma_prefix_idempotent(raw: Seq<char>, c: Category, c2: Category)
    ensures
        raw.len() > 0 && is_prefix_letter(raw[0]) ==> prefixed_code(raw, c) == raw,
        prefix_spec(c) is Some ==> prefixed_code(prefixed_code(raw, c), c2) == prefixed_code(raw, c),
{
    if prefix_spec(c) is Some && raw.len() > 0 && !is_prefix_letter(raw[0]) {
        let p = prefix_spec(c)->0;
        assert((seq![p] + raw)[0] == p);
    }
}

/// The line item that data row `row` becomes under category `cat`.
pub open spec fn item_of(row: Seq<Seq<char>>, cols: Seq<usize>, cat: Category) -> LineItemView {
    LineItemView {
        serial: cell_spec(row, cols[0] as int),
        code: prefixed_code(cell_spec(row, cols[1] as int), cat),
        description: cell_spec(row, cols[2] as int),
        unit: cell_spec(row, cols[3] as int),
        quantity: cell_spec(row, cols[4] as int),
        unit_price: cell_spec(row, cols[5] as int),
        line_total: cell_spec(row, cols[6] as int),
        category: cat,
    }
}

/// One row of the scan: a marker row switches the category, a blank row is
/// skipped, any other row adds a line item of the current category.
pub open spec fn step(
    row: Seq<Seq<char>>,
    cols: Seq<usize>,
    items: Seq<LineItemView>,
    cat: Category,
) -> (Seq<LineItemView>, Category) {
    match classify_spec(cell_spec(row, cols[2] as int)) {
        Some(c) => (items, c),
        None => if row_is_blank(row, cols) {
            (items, cat)
        } else {
            (items.push(item_of(row, cols, cat)), cat)
        },
    }
}

/// The items and current category after scanning the first `k` data rows.
pub open spec fn scan(rows: Seq<Seq<Seq<char>>>, cols: Seq<usize>, k: int) -> (
    Seq<LineItemView>,
    Category,
)
    decreases k,
{
    if k <= 0 {
        (Seq::empty(), Category::Uncategorized)
    } else {
        let prev = scan(rows, cols, k - 1);
        step(rows[k - 1], cols, prev.0, prev.1)
    }
}

/// The line items of the data rows `rows`.
pub open spec fn sheet_items(rows: Seq<Seq<Seq<char>>>, cols: Seq<usize>) -> Seq<LineItemView> {
    scan(rows, cols, rows.len() as int).0
}

/// The sheet a worksheet yields, if it has a header row.
pub open spec fn import_sheet_spec(ws: WorksheetView) -> Option<SheetView> {
    match header_row(ws.rows, required_spec()) {
        Some(h) => Some(
            SheetView {
                name: ws.name,
                items: sheet_items(
                    ws.rows.subrange(h + 1, ws.rows.len() as int),
                    columns_spec(ws.rows[h], required_spec()),
                ),
            },
        ),
        None => None,
    }
}

/// The sheets yielded by the first `k` worksheets, in workbook order.
pub open spec fn import_all(wss: Seq<WorksheetView>, k: int) -> Seq<SheetView>
    decreases k,
{
    if k <= 0 {
        Seq::empty()
    } else {
        match import_sheet_spec(wss[k - 1]) {
            Some(s) => import_all(wss, k - 1).push(s),
            None => import_all(wss, k - 1),
        }
    }
}

pub open spec fn worksheets_view(wss: Seq<Worksheet>) -> Seq<WorksheetView> {
    wss.map_values(|w: Worksheet| w@)
}

/// The names of the seven required columns.
pub fn required_columns() -> (r: Vec<String>)
    ensures
        r.deep_view() == required_spec(),
{
    let r = vec![
        String::from_str("序号"),
        String::from_str("编码"),
        String::from_str("名称及规格"),
        String::from_str("单位"),
        String::from_str("数量"),
        String::from_str("市场价"),
        String::from_str("合计"),
    ];
    assert(r.deep_view() =~= required_spec());
    r
}

/// The trimmed text of cell `j` of `row`, empty where the row is shorter.
pub fn cell(row: &Vec<String>, j: usize) -> (r: String)
    ensures
        r@ == cell_spec(row.deep_view(), j as int),
{
    if j < row.len() {
        trim(row[j].as_str())
    } else {
        String::new()
    }
}

/// The first column of `row` whose trimmed text is `name`.
pub fn find_column(row: &Vec<String>, name: &str) -> (r: Option<usize>)
    ensures
        r matches Some(j) ==> column_of(row.deep_view(), name@) == Some(j as int),
        r is None ==> column_of(row.deep_view(), name@) is None,
{
    let ghost g = row.deep_view();
    let mut j: usize = 0;
    while j < row.len()
        invariant
            g == row.deep_view(),
            j <= row.len(),
            column_of(g, name@) == column_from(g, name@, j as int),
        decreases row.len() - j,
    {
        let t = trim(row[j].as_str());
        if text_eq(t.as_str(), name) {
            return Some(j);
        }
        j = j + 1;
    }
    None
}

/// The header row of `rows` (the first row that names every one of `names`)
/// and, for each name, the first column of that row holding it.
pub fn find_header(rows: &Vec<Vec<String>>, names: &Vec<String>) -> (r: Option<(usize, Vec<usize>)>)
    ensures
        r matches Some((h, cols)) ==> {
            &&& h < rows@.len()
            &&& header_row(rows.deep_view(), names.deep_view()) == Some(h as int)
            &&& cols@ == columns_spec(rows.deep_view()[h as int], names.deep_view())
            &&& forall|k: int|
                0 <= k < cols@.len() ==> column_of(rows.deep_view()[h as int], names.deep_view()[k])
                    == Some(#[trigger] cols@[k] as int)
        },
        r is None ==> header_row(rows.deep_view(), names.deep_view()) is None,
{
    let ghost g = rows.deep_view();
    let ghost ns = names.deep_view();
    let mut h: usize = 0;
    while h < rows.len()
        invariant
            g == rows.deep_view(),
            ns == names.deep_view(),
            h <= rows.len(),
            header_row(g, ns) == header_from(g, ns, h as int),
        decreases rows.len() - h,
    {
        let row = &rows[h];
        assert(row.deep_view() == g[h as int]);
        let mut cols: Vec<usize> = Vec::new();
        let mut k: usize = 0;
        let mut all = true;
        while k < names.len() && all
            invariant
                g == rows.deep_view(),
                ns == names.deep_view(),
                h < rows.len(),
                row.deep_view() == g[h as int],
                k <= names.len(),
                cols@.len() == k,
                all ==> forall|i: int|
                    0 <= i < k ==> column_of(g[h as int], ns[i]) == Some(#[trigger] cols@[i] as int),
                !all ==> !has_all(g[h as int], ns),
            decreases names.len() - k,
        {
            assert(names[k as int]@ == ns[k as int]);
            match find_column(row, names[k].as_str()) {
                Some(j) => {
                    cols.push(j);
                },
                None => {
                    all = false;
                    cols.push(0);
                },
            }
            k = k + 1;
        }
        if all {
            assert forall|i: int| 0 <= i < ns.len() implies (#[trigger] column_of(
                g[h as int],
                ns[i],
            )) is Some by {
                assert(column_of(g[h as int], ns[i]) == Some(cols@[i] as int));
            }
            assert(has_all(g[h as int], ns));
            assert(cols@ =~= columns_spec(g[h as int], ns));
            return Some((h, cols));
        }
        h = h + 1;
    }
    None
}

/// Whether every required cell of `row` is empty.
fn blank_row(row: &Vec<String>, cols: &Vec<usize>) -> (r: bool)
    requires
        cols@.len() == 7,
    ensures
        r == row_is_blank(row.deep_view(), cols@),
{
    let mut k: usize = 0;
    while k < 7
        invariant
            cols@.len() == 7,
            k <= 7,
            forall|i: int| 0 <= i < k ==> (#[trigger] cell_spec(row.deep_view(), cols@[i] as int)).len() == 0,
        decreases 7 - k,
    {
        let t = cell(row, cols[k]);
        if !t.as_str().is_empty() {
            assert(cell_spec(row.deep_view(), cols@[k as int] as int).len() != 0);
            return false;
        }
        k = k + 1;
    }
    true
}

/// The code as stored under category `cat`: see `prefixed_code`.
pub fn code_with_prefix(raw: String, cat: Category) -> (r: String)
    ensures
        r@ == prefixed_code(raw@, cat),
{
    if raw.as_str().is_empty() {
        return raw;
    }
    let c0 = raw.as_str().get_char(0);
    if c0 == 'L' || c0 == 'M' || c0 == 'E' {
        return raw;
    }
    match cat.prefix() {
        Some(p) => {
            let mut s = String::new();
            s.push(p);
            push_all(&mut s, raw.as_str());
            assert(s@ =~= seq![p] + raw@);
            s
        },
        None => raw,
    }
}

fn item_from_row(row: &Vec<String>, cols: &Vec<usize>, cat: Category) -> (r: LineItem)
    requires
        cols@.len() == 7,
    ensures
        r@ == item_of(row.deep_view(), cols@, cat),
{
    LineItem {
        serial: cell(row, cols[0]),
        code: code_with_prefix(cell(row, cols[1]), cat),
        description: cell(row, cols[2]),
        unit: cell(row, cols[3]),
        quantity: cell(row, cols[4]),
        unit_price: cell(row, cols[5]),
        line_total: cell(row, cols[6]),
        category: cat,
    }
}

/// The line items of the data rows `rows[start..]`, whose required columns
/// are `cols`: marker rows set the category of the items after them, rows
/// with every required cell empty are skipped.
pub fn import_rows(rows: &Vec<Vec<String>>, start: usize, cols: &Vec<usize>) -> (r: Vec<LineItem>)
    requires
        cols@.len() == 7,
        start <= rows.len(),
    ensures
        items_view(r@) == sheet_items(
            rows.deep_view().subrange(start as int, rows.len() as int),
            cols@,
        ),
{
    let ghost g = rows.deep_view();
    let ghost sub = g.subrange(start as int, rows.len() as int);
    let mut items: Vec<LineItem> = Vec::new();
    let mut cat = Category::Uncategorized;
    let mut k: usize = start;
    assert(items_view(items@) =~= Seq::<LineItemView>::empty());
    while k < rows.len()
        invariant
            g == rows.deep_view(),
            sub == g.subrange(start as int, rows.len() as int),
            cols@.len() == 7,
            start <= k <= rows.len(),
            (items_view(items@), cat) == scan(sub, cols@, k - start),
        decreases rows.len() - k,
    {
        let row = &rows[k];
        assert(sub[k - start] == row.deep_view());
        let desc = cell(row, cols[2]);
        match Category::classify(desc.as_str()) {
            Some(c) => {
                cat = c;
            },
            None => {
                if !blank_row(row, cols) {
                    let item = item_from_row(row, cols, cat);
                    let ghost before = items@;
                    items.push(item);
                    assert(items_view(items@) =~= items_view(before).push(item@));
                }
            },
        }
        k = k + 1;
    }
    items
}

/// The sheet a worksheet yields: `None` when no row names every required
/// column, else the line items of the rows below the header row.
pub fn import_worksheet(ws: &Worksheet) -> (r: Option<Sheet>)
    ensures
        r matches Some(s) ==> import_sheet_spec(ws@) == Some(s@),
        r is None ==> import_sheet_spec(ws@) is None,
{
    let names = required_columns();
    match find_header(&ws.rows, &names) {
        Some((h, cols)) => {
            assert(cols@.len() == 7);
            let n = ws.rows.len();
            assert(h < n);
            let items = import_rows(&ws.rows, h + 1, &cols);
            Some(Sheet { name: ws.name.clone(), items })
        },
        None => None,
    }
}

/// Imports every worksheet that has a header row, in workbook order.
/// Fails with `NoValidSheet` exactly when none has one.
pub fn import_workbook(wss: &Vec<Worksheet>) -> (r: Result<Vec<Sheet>, ImportError>)
    ensures
        r matches Ok(sheets) ==> sheets_view(sheets@) == import_all(
            worksheets_view(wss@),
            wss@.len() as int,
        ) && sheets@.len() > 0,
        r matches Err(e) ==> e == ImportError::NoValidSheet && import_all(
            worksheets_view(wss@),
            wss@.len() as int,
        ).len() == 0,
{
    let ghost wv = worksheets_view(wss@);
    let mut sheets: Vec<Sheet> = Vec::new();
    let mut k: usize = 0;
    assert(sheets_view(sheets@) =~= Seq::<SheetView>::empty());
    while k < wss.len()
        invariant
            wv == worksheets_view(wss@),
            k <= wss.len(),
            sheets_view(sheets@) == import_all(wv, k as int),
        decreases wss.len() - k,
    {
        assert(wv[k as int] == wss@[k as int]@);
        match import_worksheet(&wss[k]) {
            Some(s) => {
                let ghost before = sheets@;
                sheets.push(s);
                assert(sheets_view(sheets@) =~= sheets_view(before).push(s@));
            },
            None => {},
        }
        k = k + 1;
    }
    if sheets.len() == 0 {
        Err(ImportError::NoValidSheet)
    } else {
        Ok(sheets)
    }
}

} // verus!
