//! The text shown for result rows and drill-down rows, the total emission
//! derived from a user-entered engineering volume, and the export table.
use vstd::prelude::*;
use crate::aggregate::{ResultRow, ResultRowView, RowKind, rows_view, placeholder_spec, subtotal_in_range};
use crate::detail::{SubItemRow, SubItemRowView};
use crate::emission::EMISSION_LIMIT;
use crate::format::{fixed_text, plain_text, round_spec, fixed_to_text, plain_to_text, round_scaled};
use crate::number::{parse_fixed, parse_fixed_spec, pow10};
use crate::text::text_eq;

verus! {

/// An emission, in millionths of millionths, as text with two decimals.
pub open spec fn emission_text_spec(v: int) -> Seq<char> {
    fixed_text(round_spec(v, 10), 2)
}

/// Whether the volume field of a row holds no volume.
pub open spec fn volume_unset(volume: Seq<char>) -> bool {
    volume.len() == 0 || volume == placeholder_spec()
}

/// The total emission of a summary row: its volume times its subtotal as
/// shown (to two decimals), written with two decimals; a dash where the volume
/// is unset or no number; blank on a type header.
pub open spec fn total_emission_spec(row: ResultRowView) -> Seq<char> {
    if row.kind == RowKind::TypeHeader {
        Seq::empty()
    } else if volume_unset(row.volume) {
        "-"@
    } else {
        match parse_fixed_spec(row.volume) {
            Some(v) => fixed_text(round_spec(v * round_spec(row.subtotal, 10), 6), 2),
            None => "-"@,
        }
    }
}

/// The nine column names of the result table.
pub open spec fn result_columns_spec() -> Seq<Seq<char>> {
    seq!["序号"@, "项目名称"@, "单位"@, "工程量"@, "总碳排放量"@, "人工"@, "材料"@, "机械"@, "小计"@]
}

/// The nine cells of a result row: a type header shows only its serial and
/// name.
pub open spec fn row_cells_spec(row: ResultRowView) -> Seq<Seq<char>> {
    if row.kind == RowKind::TypeHeader {
        seq![
            row.serial,
            row.name,
            Seq::empty(),
            Seq::empty(),
            Seq::empty(),
            Seq::empty(),
            Seq::empty(),
            Seq::empty(),
            Seq::empty(),
        ]
    } else {
        seq![
            row.serial,
            row.name,
            row.unit,
            row.volume,
            total_emission_spec(row),
            emission_text_spec(row.labor),
            emission_text_spec(row.material),
            emission_text_spec(row.machine),
            emission_text_spec(row.subtotal),
        ]
    }
}

/// The factor of a drill-down row as text, with as few decimals as it needs;
/// blank where the row has none.
pub open spec fn factor_text_spec(row: SubItemRowView) -> Seq<char> {
    match row.factor {
        Some(f) => plain_text(f, 6),
        None => Seq::empty(),
    }
}

/// The emission of a drill-down row as text with four decimals; blank where
/// the row has none.
pub open spec fn detail_emission_text_spec(row: SubItemRowView) -> Seq<char> {
    match row.emission {
        Some(e) => fixed_text(round_spec(e, 8), 4),
        None => Seq::empty(),
    }
}

/// Why a volume entry was refused.
#[derive(Clone, Copy, Debug, PartialEq, Eq, Structural)]
pub enum VolumeError {
    /// The text is neither empty nor a number.
    NotANumber,
}

/// An emission, in millionths of millionths, as text with two decimals.
pub fn emission_text(v: i128) -> (r: String)
    ensures
        r@ == emission_text_spec(v as int),
{
    let h = round_scaled(v, 10);
    fixed_to_text(h, 2)
}

impl ResultRow {
    /// Whether this row's subtotal is small enough for its total emission to
    /// be computed (see `subtotal_in_range`).
    pub fn subtotal_fits(&self) -> (r: bool)
        ensures
            r == subtotal_in_range(self@),
    {
        -3 * EMISSION_LIMIT <= self.subtotal && self.subtotal <= 3 * EMISSION_LIMIT
    }

    /// The total emission shown for this row (see `total_emission_spec`).
    pub fn total_emission_text(&self) -> (r: String)
        requires
            subtotal_in_range(self@),
        ensures
            r@ == total_emission_spec(self@),
    {
        if self.kind == RowKind::TypeHeader {
            return String::new();
        }
        if self.volume.as_str().is_empty() || text_eq(self.volume.as_str(), "右键编辑") {
            return String::from_str("-");
        }
        match parse_fixed(self.volume.as_str()) {
            Some(v) => {
                let h = round_scaled(self.subtotal, 10);
                proof {
                    reveal_with_fuel(pow10, 11);
                    assert(pow10(10) == 10_000_000_000);
                    assert(-3_000_000_000_000_000_001 <= h <= 3_000_000_000_000_000_001);
                    assert(-9_223_372_036_854_775_808 <= v <= 9_223_372_036_854_775_807);
                    assert(-28_000_000_000_000_000_000_000_000_000_000_000_000 <= (v as int) * (
                    h as int) <= 28_000_000_000_000_000_000_000_000_000_000_000_000)
                        by (nonlinear_arith)
                        requires
                            -3_000_000_000_000_000_001 <= h <= 3_000_000_000_000_000_001,
                            -9_223_372_036_854_775_808 <= v <= 9_223_372_036_854_775_807,
                    ;
                }
                let p = (v as i128) * h;
                let t = round_scaled(p, 6);
                fixed_to_text(t, 2)
            },
            None => String::from_str("-"),
        }
    }

    /// The nine cells of this row (see `row_cells_spec`).
    pub fn cells(&self) -> (r: Vec<String>)
        requires
            subtotal_in_range(self@),
        ensures
            r.deep_view() == row_cells_spec(self@),
    {
        let r = if self.kind == RowKind::TypeHeader {
            vec![
                self.serial.clone(),
                self.name.clone(),
                String::new(),
                String::new(),
                String::new(),
                String::new(),
                String::new(),
                String::new(),
                String::new(),
            ]
        } else {
            vec![
                self.serial.clone(),
                self.name.clone(),
                self.unit.clone(),
                self.volume.clone(),
                self.total_emission_text(),
                emission_text(self.labor),
                emission_text(self.material),
                emission_text(self.machine),
                emission_text(self.subtotal),
            ]
        };
        assert(r.deep_view() =~= row_cells_spec(self@));
        r
    }

    /// This row with `volume` in its volume field.
    fn with_volume(&self, volume: String) -> (r: ResultRow)
        ensures
            r@ == (ResultRowView { volume: volume@, ..self@ }),
    {
        ResultRow {
            kind: self.kind,
            serial: self.serial.clone(),
            name: self.name.clone(),
            sheet: self.sheet.clone(),
            unit: self.unit.clone(),
            volume,
            labor: self.labor,
            material: self.material,
            machine: self.machine,
            subtotal: self.subtotal,
        }
    }

    /// This row as shown with the volumes the user entered (see
    /// `with_override`); the row itself is left as computed.
    pub fn applied(&self, overrides: &VolumeOverrides) -> (r: ResultRow)
        ensures
            r@ == with_override(self@, overrides@),
    {
        if self.kind == RowKind::SheetSummary {
            match overrides.volume(self.sheet.as_str()) {
                Some(v) => {
                    return self.with_volume(v);
                },
                None => {},
            }
        }
        let r = self.with_volume(self.volume.clone());
        assert(r@ == self@);
        r
    }

    /// The total emission of this row under the volumes the user entered.
    pub fn total_emission_with(&self, overrides: &VolumeOverrides) -> (r: String)
        requires
            subtotal_in_range(self@),
        ensures
            r@ == total_emission_spec(with_override(self@, overrides@)),
    {
        self.applied(overrides).total_emission_text()
    }

    /// The nine cells of this row under the volumes the user entered.
    pub fn cells_with(&self, overrides: &VolumeOverrides) -> (r: Vec<String>)
        requires
            subtotal_in_range(self@),
        ensures
            r.deep_view() == row_cells_spec(with_override(self@, overrides@)),
    {
        self.applied(overrides).cells()
    }
}

/// Engineering volumes the user entered, kept apart from the computed rows
/// and keyed by full sheet name. Entries are kept in the order they were
/// made; the last one for a sheet holds.
pub struct VolumeOverrides {
    pub entries: Vec<(String, String)>,
}

impl View for VolumeOverrides {
    type V = Seq<(Seq<char>, Seq<char>)>;

    open spec fn view(&self) -> Seq<(Seq<char>, Seq<char>)> {
        self.entries.deep_view()
    }
}

/// The volume of the last of the first `k` entries made for `sheet`.
pub open spec fn volume_from(entries: Seq<(Seq<char>, Seq<char>)>, sheet: Seq<char>, k: int) -> Option<
    Seq<char>,
>
    decreases k,
{
    if k <= 0 {
        None
    } else if entries[k - 1].0 == sheet {
        Some(entries[k - 1].1)
    } else {
        volume_from(entries, sheet, k - 1)
    }
}

/// The volume the user entered for `sheet`, if any.
pub open spec fn volume_of(entries: Seq<(Seq<char>, Seq<char>)>, sheet: Seq<char>) -> Option<Seq<char>> {
    volume_from(entries, sheet, entries.len() as int)
}

/// A result row as shown: a summary row takes the volume entered for its
/// sheet, if there is one; other rows are shown as computed.
pub open spec fn with_override(row: ResultRowView, entries: Seq<(Seq<char>, Seq<char>)>) -> ResultRowView {
    if row.kind == RowKind::SheetSummary {
        match volume_of(entries, row.sheet) {
            Some(v) => ResultRowView { volume: v, ..row },
            None => row,
        }
    } else {
        row
    }
}

impl VolumeOverrides {
    /// No volumes entered.
    pub fn new() -> (r: VolumeOverrides)
        ensures
            r@.len() == 0,
    {
        let r = VolumeOverrides { entries: Vec::new() };
        assert(r@ =~= Seq::<(Seq<char>, Seq<char>)>::empty());
        r
    }

    /// The volume entered for `sheet`, if any.
    pub fn volume(&self, sheet: &str) -> (r: Option<String>)
        ensures
            r matches Some(v) ==> volume_of(self@, sheet@) == Some(v@),
            r is None ==> volume_of(self@, sheet@) is None,
    {
        let mut k: usize = self.entries.len();
        while k > 0
            invariant
                k <= self.entries@.len(),
                volume_of(self@, sheet@) == volume_from(self@, sheet@, k as int),
            decreases k,
        {
            assert(self@[k - 1] == (self.entries@[k - 1].0@, self.entries@[k - 1].1@));
            if text_eq(self.entries[k - 1].0.as_str(), sheet) {
                return Some(self.entries[k - 1].1.clone());
            }
            k = k - 1;
        }
        None
    }

    /// Enters `volume` for `sheet`. The text must be empty (the sheet then
    /// shows no volume) or a number (see `parse_fixed`); a refused entry
    /// changes nothing.
    pub fn set(&mut self, sheet: String, volume: String) -> (r: Result<(), VolumeError>)
        ensures
            r is Ok <==> (volume@.len() == 0 || parse_fixed_spec(volume@) is Some),
            r matches Err(e) ==> e == VolumeError::NotANumber && final(self)@ == old(self)@,
            r is Ok ==> final(self)@ == old(self)@.push((sheet@, volume@)),
            r is Ok ==> volume_of(final(self)@, sheet@) == Some(volume@),
            r is Ok ==> forall|other: Seq<char>|
                other != sheet@ ==> #[trigger] volume_of(final(self)@, other) == volume_of(
                    old(self)@,
                    other,
                ),
    {
        if !volume.as_str().is_empty() && parse_fixed(volume.as_str()).is_none() {
            return Err(VolumeError::NotANumber);
        }
        let ghost before = self@;
        let ghost key = sheet@;
        let ghost v = volume@;
        self.entries.push((sheet, volume));
        assert(self@ =~= before.push((key, v)));
        assert forall|other: Seq<char>| other != key implies #[trigger] volume_of(self@, other)
            == volume_of(before, other) by {
            assert(self@[before.len() as int] == (key, v));
            assert(self@.subrange(0, before.len() as int) =~= before);
            lemma_volume_prefix(self@, other, before.len() as int);
        }
        Ok(())
    }
}

proof fn lemma_volume_prefix(entries: Seq<(Seq<char>, Seq<char>)>, sheet: Seq<char>, k: int)
    requires
        0 <= k <= entries.len(),
    ensures
        volume_from(entries, sheet, k) == volume_from(entries.subrange(0, k), sheet, k),
    decreases k,
{
    if k > 0 {
        lemma_volume_prefix(entries, sheet, k - 1);
        lemma_volume_prefix(entries.subrange(0, k), sheet, k - 1);
        assert(entries.subrange(0, k).subrange(0, k - 1) =~= entries.subrange(0, k - 1));
    }
}

impl SubItemRow {
    /// The factor of this row as text (see `factor_text_spec`).
    pub fn factor_text(&self) -> (r: String)
        ensures
            r@ == factor_text_spec(self@),
    {
        match self.factor {
            Some(f) => plain_to_text(f as i128, 6),
            None => String::new(),
        }
    }

    /// The emission of this row as text (see `detail_emission_text_spec`).
    pub fn emission_text(&self) -> (r: String)
        ensures
            r@ == detail_emission_text_spec(self@),
    {
        match self.emission {
            Some(e) => fixed_to_text(round_scaled(e, 8), 4),
            None => String::new(),
        }
    }
}

/// The nine column names of the result table.
pub fn result_columns() -> (r: Vec<String>)
    ensures
        r.deep_view() == result_columns_spec(),
{
    let r = vec![
        String::from_str("序号"),
        String::from_str("项目名称"),
        String::from_str("单位"),
        String::from_str("工程量"),
        String::from_str("总碳排放量"),
        String::from_str("人工"),
        String::from_str("材料"),
        String::from_str("机械"),
        String::from_str("小计"),
    ];
    assert(r.deep_view() =~= result_columns_spec());
    r
}

/// The rows as shown, each with the volume entered for its sheet.
pub open spec fn shown_rows(rows: Seq<ResultRowView>, entries: Seq<(Seq<char>, Seq<char>)>) -> Seq<
    ResultRowView,
> {
    Seq::new(rows.len(), |i: int| with_override(rows[i], entries))
}

/// The table written on export: the nine column names, then the cells of
/// each row in order.
pub open spec fn export_spec(rows: Seq<ResultRowView>) -> Seq<Seq<Seq<char>>> {
    seq![result_columns_spec()] + Seq::new(rows.len(), |i: int| row_cells_spec(rows[i]))
}

/// What export writes reads back as the nine column names followed by one
/// row of nine cells per result row, each cell holding the text of its field:
/// serial and name for every row; unit, volume, total emission and the four
/// emission figures for summary rows.
pub proof fn lemma_export_cells(rows: Seq<ResultRowView>)
    ensures
        export_spec(rows).len() == rows.len() + 1,
        export_spec(rows)[0] == result_columns_spec(),
        result_columns_spec().len() == 9,
        forall|i: int|
            0 <= i < rows.len() ==> {
                let cells = #[trigger] export_spec(rows)[i + 1];
                &&& cells.len() == 9
                &&& cells[0] == rows[i].serial
                &&& cells[1] == rows[i].name
                &&& rows[i].kind == RowKind::SheetSummary ==> {
                    &&& cells[2] == rows[i].unit
                    &&& cells[3] == rows[i].volume
                    &&& cells[4] == total_emission_spec(rows[i])
                    &&& cells[5] == emission_text_spec(rows[i].labor)
                    &&& cells[6] == emission_text_spec(rows[i].material)
                    &&& cells[7] == emission_text_spec(rows[i].machine)
                    &&& cells[8] == emission_text_spec(rows[i].subtotal)
                }
            },
{
    assert forall|i: int| 0 <= i < rows.len() implies {
        let cells = #[trigger] export_spec(rows)[i + 1];
        &&& cells.len() == 9
        &&& cells[0] == rows[i].serial
        &&& cells[1] == rows[i].name
        &&& rows[i].kind == RowKind::SheetSummary ==> {
            &&& cells[2] == rows[i].unit
            &&& cells[3] == rows[i].volume
            &&& cells[4] == total_emission_spec(rows[i])
            &&& cells[5] == emission_text_spec(rows[i].labor)
            &&& cells[6] == emission_text_spec(rows[i].material)
            &&& cells[7] == emission_text_spec(rows[i].machine)
            &&& cells[8] == emission_text_spec(rows[i].subtotal)
        }
    } by {
        assert(export_spec(rows)[i + 1] == row_cells_spec(rows[i]));
    }
}

/// The cells of the exported result table, with the volumes the user entered
/// (see `export_spec` and `with_override`).
pub fn export_table(rows: &Vec<ResultRow>, overrides: &VolumeOverrides) -> (r: Vec<Vec<String>>)
    requires
        forall|i: int| 0 <= i < rows@.len() ==> subtotal_in_range(#[trigger] rows@[i]@),
    ensures
        r.deep_view() == export_spec(shown_rows(rows_view(rows@), overrides@)),
{
    let mut table: Vec<Vec<String>> = Vec::new();
    table.push(result_columns());
    let mut k: usize = 0;
    while k < rows.len()
        invariant
            k <= rows.len(),
            forall|i: int| 0 <= i < rows@.len() ==> subtotal_in_range(#[trigger] rows@[i]@),
            table.deep_view() == seq![result_columns_spec()] + Seq::new(
                k as nat,
                |i: int| row_cells_spec(with_override(rows@[i]@, overrides@)),
            ),
        decreases rows.len() - k,
    {
        let cells = rows[k].cells_with(overrides);
        let ghost before = table.deep_view();
        table.push(cells);
        assert(table.deep_view() =~= before.push(
            row_cells_spec(with_override(rows@[k as int]@, overrides@)),
        ));
        assert(table.deep_view() =~= seq![result_columns_spec()] + Seq::new(
            (k + 1) as nat,
            |i: int| row_cells_spec(with_override(rows@[i]@, overrides@)),
        ));
        k = k + 1;
    }
    assert(table.deep_view() =~= export_spec(shown_rows(rows_view(rows@), overrides@)));
    table
}

} // verus!
