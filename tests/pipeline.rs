use carbon_core::aggregate::{aggregate, find_sheet_by_short_name, AggregateError, RowKind};
use carbon_core::category::Category;
use carbon_core::detail::{sheet_details, DetailKind};
use carbon_core::import::{import_workbook, import_worksheet, ImportError, Sheet, Worksheet};
use carbon_core::present::{export_table, result_columns, VolumeError, VolumeOverrides};
use carbon_core::reference::{load_references, ReferenceError, ReferenceTables};

fn grid(rows: &[&[&str]]) -> Vec<Vec<String>> {
    rows.iter().map(|r| r.iter().map(|c| c.to_string()).collect()).collect()
}

fn sheet(name: &str, rows: &[&[&str]]) -> Worksheet {
    Worksheet { name: name.to_string(), rows: grid(rows) }
}

const HEADER: &[&str] = &["序号", "编码", "名称及规格", "单位", "数量", "市场价", "合计"];

fn road_sheet(name: &str) -> Worksheet {
    sheet(
        name,
        &[
            &["某道路工程", "", "", "", "", "", ""],
            HEADER,
            &["", "", "人工类别", "", "", "", ""],
            &["1", "001", "普工", "工日", "3", "100", "300"],
            &["", "", "材料类别", "", "", "", ""],
            &["1", "100", "水泥", "t", "4", "400", "1600"],
            &["2", "200", "砂", "m3", "1.5", "80", "120"],
            &["", "", "", "", "", "", ""],
            &["", "", "机械类别", "", "", "", ""],
            &["1", "300", "压路机", "台班", "2", "900", "1800"],
        ],
    )
}

fn reference_workbook() -> Vec<Worksheet> {
    vec![
        sheet(
            "人工数据",
            &[
                &["编码", "名称", "规格型号", "单位", "单位碳排放因子"],
                &["001", "普工", "", "工日", "2"],
            ],
        ),
        sheet(
            "材料数据",
            &[
                &["编码", "名称", "规格型号", "单位", "单位碳排放因子"],
                &["100", "水泥", "P.O42.5", "t", "0.5"],
            ],
        ),
    ]
}

const UNIT: i128 = 1_000_000_000_000;

fn imported(names: &[&str]) -> Vec<Sheet> {
    let wss: Vec<Worksheet> = names.iter().map(|n| road_sheet(n)).collect();
    import_workbook(&wss).unwrap()
}

#[test]
fn import_tracks_categories_and_prefixes_codes() {
    let s = import_worksheet(&road_sheet("道路工程 A")).unwrap();
    assert_eq!(s.name, "道路工程 A");
    let codes: Vec<&str> = s.items.iter().map(|i| i.code.as_str()).collect();
    assert_eq!(codes, vec!["L001", "M100", "M200", "E300"]);
    let cats: Vec<Category> = s.items.iter().map(|i| i.category).collect();
    assert_eq!(
        cats,
        vec![Category::Labor, Category::Material, Category::Material, Category::Machine]
    );
    assert_eq!(s.items[2].quantity, "1.5");
    assert_eq!(s.items[2].description, "砂");
}

#[test]
fn import_keeps_existing_prefix() {
    let ws = sheet(
        "道路工程 A",
        &[
            HEADER,
            &["", "", "材料类别", "", "", "", ""],
            &["1", "L001", "普工", "工日", "3", "", ""],
            &["2", "E9", "机", "台班", "1", "", ""],
        ],
    );
    let s = import_worksheet(&ws).unwrap();
    assert_eq!(s.items[0].code, "L001");
    assert_eq!(s.items[1].code, "E9");
    assert_eq!(s.items[0].category, Category::Material);
}

#[test]
fn import_rows_before_any_marker_are_uncategorized() {
    let ws = sheet("S", &[HEADER, &["1", "77", "杂项", "项", "2", "", ""]]);
    let s = import_worksheet(&ws).unwrap();
    assert_eq!(s.items[0].code, "77");
    assert_eq!(s.items[0].category, Category::Uncategorized);
}

#[test]
fn import_trims_cells_and_finds_shuffled_header() {
    let ws = sheet(
        "S",
        &[
            &[" 合计", "数量 ", "单位", "名称及规格", "编码", "序号", "市场价"],
            &["10", " 5 ", "m", " 人工类别 ", "", "", ""],
            &["20", "2", "m", "钢筋", " 12 ", "1", "10"],
        ],
    );
    let s = import_worksheet(&ws).unwrap();
    assert_eq!(s.items.len(), 1);
    assert_eq!(s.items[0].code, "L12");
    assert_eq!(s.items[0].quantity, "2");
    assert_eq!(s.items[0].line_total, "20");
}

#[test]
fn import_without_header_is_skipped() {
    let ws = sheet("S", &[&["序号", "编码"], &["1", "2"]]);
    assert!(import_worksheet(&ws).is_none());
    let r = import_workbook(&vec![ws]);
    assert!(matches!(r, Err(ImportError::NoValidSheet)));
}

#[test]
fn import_workbook_keeps_order_and_skips_invalid() {
    let wss = vec![
        road_sheet("交通工程 B"),
        sheet("说明", &[&["无数据"]]),
        road_sheet("道路工程 A"),
    ];
    let sheets = import_workbook(&wss).unwrap();
    let names: Vec<&str> = sheets.iter().map(|s| s.name.as_str()).collect();
    assert_eq!(names, vec!["交通工程 B", "道路工程 A"]);
}

#[test]
fn references_load_with_defaults_and_first_code_wins() {
    let wss = vec![sheet(
        "机械数据",
        &[
            &["说明"],
            &["单位碳排放因子", "编码", "名称", "规格型号", "单位"],
            &["3.25", "300", "压路机", "18t", "台班"],
            &["abc", "301", "摊铺机", "", "台班"],
            &["9", "300", "重复", "", ""],
            &["4", "", "无编码", "", ""],
        ],
    )];
    let t = load_references(&wss).unwrap();
    assert_eq!(t.labor.len(), 0);
    assert_eq!(t.material.len(), 0);
    assert_eq!(t.machine.len(), 2);
    assert_eq!(t.machine[0].code, "300");
    assert_eq!(t.machine[0].factor, 3_250_000);
    assert_eq!(t.machine[0].specification, "18t");
    assert_eq!(t.machine[1].factor, 1_000_000);
}

#[test]
fn references_missing_everywhere_is_an_error() {
    let wss = vec![sheet("其他", &[&["编码", "名称", "规格型号", "单位", "单位碳排放因子"]])];
    assert!(matches!(load_references(&wss), Err(ReferenceError::NoReferenceData)));
}

#[test]
fn factor_lookup_strips_prefix_and_defaults() {
    let t = load_references(&reference_workbook()).unwrap();
    assert_eq!(t.factor_for("L001", Category::Labor), 2_000_000);
    assert_eq!(t.factor_for("M100", Category::Material), 500_000);
    assert_eq!(t.factor_for("M100", Category::Labor), 1_000_000);
    assert_eq!(t.factor_for("001", Category::Uncategorized), 1_000_000);
    assert_eq!(t.factor_for("", Category::Labor), 1_000_000);
}

#[test]
fn aggregation_sums_are_exact() {
    let refs = load_references(&reference_workbook()).unwrap();
    let sheets = imported(&["道路工程 A"]);
    let a = aggregate(&sheets, &refs).unwrap();
    assert_eq!(a.rows.len(), 2);
    let s = &a.rows[1];
    assert_eq!(s.kind, RowKind::SheetSummary);
    assert_eq!(s.labor, 6 * UNIT);
    assert_eq!(s.material, 3 * UNIT + UNIT / 2);
    assert_eq!(s.machine, 2 * UNIT);
    assert_eq!(s.subtotal, s.labor + s.material + s.machine);
    assert_eq!(s.subtotal, 11 * UNIT + UNIT / 2);
    assert_eq!(s.name, "A");
    assert_eq!(s.unit, "m2");
    assert_eq!(s.volume, "右键编辑");
}

#[test]
fn aggregation_missing_reference_counts_factor_one() {
    let sheets = imported(&["道路工程 A"]);
    let a = aggregate(&sheets, &ReferenceTables::empty()).unwrap();
    let s = &a.rows[1];
    assert_eq!(s.labor, 3 * UNIT);
    assert_eq!(s.material, 5 * UNIT + UNIT / 2);
    assert_eq!(s.machine, 2 * UNIT);
}

#[test]
fn aggregation_unparsable_quantity_contributes_zero() {
    let ws = sheet(
        "S",
        &[
            HEADER,
            &["", "", "人工类别", "", "", "", ""],
            &["1", "001", "普工", "工日", "三", "", ""],
            &["2", "002", "技工", "工日", "", "", ""],
            &["3", "003", "技工", "工日", "0.25", "", ""],
        ],
    );
    let sheets = import_workbook(&vec![ws]).unwrap();
    let a = aggregate(&sheets, &ReferenceTables::empty()).unwrap();
    assert_eq!(a.rows[1].labor, UNIT / 4);
}

#[test]
fn aggregation_groups_by_sorted_type_keeping_sheet_order() {
    let sheets = imported(&["道路工程 A", "交通工程 B", "道路工程 C"]);
    let a = aggregate(&sheets, &ReferenceTables::empty()).unwrap();
    let kinds: Vec<RowKind> = a.rows.iter().map(|r| r.kind).collect();
    assert_eq!(
        kinds,
        vec![
            RowKind::TypeHeader,
            RowKind::SheetSummary,
            RowKind::TypeHeader,
            RowKind::SheetSummary,
            RowKind::SheetSummary,
        ]
    );
    let cells: Vec<(&str, &str)> =
        a.rows.iter().map(|r| (r.serial.as_str(), r.name.as_str())).collect();
    // 交 (U+4EA4) sorts before 道 (U+9053).
    assert_eq!(
        cells,
        vec![("一", "交通工程"), ("1", "B"), ("二", "道路工程"), ("1", "A"), ("2", "C")]
    );
}

#[test]
fn aggregation_ordinals_fall_back_to_numbers() {
    let sheets = imported(&["甲 a", "乙 b", "丙 c", "丁 d"]);
    let a = aggregate(&sheets, &ReferenceTables::empty()).unwrap();
    let serials: Vec<&str> = a
        .rows
        .iter()
        .filter(|r| r.kind == RowKind::TypeHeader)
        .map(|r| r.serial.as_str())
        .collect();
    assert_eq!(serials, vec!["一", "二", "三", "4"]);
}

#[test]
fn aggregation_of_no_sheets_is_empty() {
    let a = aggregate(&Vec::new(), &ReferenceTables::empty()).unwrap();
    assert!(a.rows.is_empty());
    assert!(a.details.is_empty());
}

#[test]
fn aggregation_overflow_is_reported() {
    let mut rows: Vec<&[&str]> = vec![HEADER, &["", "", "人工类别", "", "", "", ""]];
    for _ in 0..200 {
        rows.push(&["1", "1", "x", "x", "9000000000000", "", ""]);
    }
    let ws = sheet("S", &rows);
    let refs = load_references(&vec![sheet(
        "人工数据",
        &[
            &["编码", "名称", "规格型号", "单位", "单位碳排放因子"],
            &["1", "x", "", "", "9000000000000"],
        ],
    )])
    .unwrap();
    let sheets = import_workbook(&vec![ws]).unwrap();
    assert!(matches!(aggregate(&sheets, &refs), Err(AggregateError::EmissionOverflow)));
    assert!(sheet_details(&sheets[0].items, &refs).is_none());
}

#[test]
fn details_group_by_category_with_separators() {
    let refs = load_references(&reference_workbook()).unwrap();
    let sheets = imported(&["道路工程 A"]);
    let d = sheet_details(&sheets[0].items, &refs).unwrap();
    let kinds: Vec<DetailKind> = d.iter().map(|r| r.kind).collect();
    let (h, i, s) = (DetailKind::CategoryHeader, DetailKind::Item, DetailKind::Separator);
    assert_eq!(kinds, vec![h, i, s, h, i, i, s, h, i]);
    assert_eq!(d[0].description, "人工类别");
    assert_eq!(d[0].emission_text(), "6.0000");
    assert_eq!(d[3].description, "材料类别");
    assert_eq!(d[3].emission_text(), "3.5000");
    assert_eq!(d[5].serial, "2");
    assert_eq!(d[5].code, "M200");
    assert_eq!(d[4].factor_text(), "0.5");
    assert_eq!(d[5].factor_text(), "1");
    assert_eq!(d[5].emission_text(), "1.5000");
    assert_eq!(d[2].description, "");
    let a = aggregate(&sheets, &refs).unwrap();
    assert_eq!(a.details.len(), d.len());
}

#[test]
fn details_omit_missing_categories() {
    let ws = sheet(
        "S",
        &[HEADER, &["", "", "机械类别", "", "", "", ""], &["1", "5", "机", "台班", "2", "", ""]],
    );
    let sheets = import_workbook(&vec![ws]).unwrap();
    let d = sheet_details(&sheets[0].items, &ReferenceTables::empty()).unwrap();
    assert_eq!(d.len(), 2);
    assert_eq!(d[0].kind, DetailKind::CategoryHeader);
    assert_eq!(d[0].category, Category::Machine);
    assert_eq!(d[1].serial, "1");
    assert_eq!(d[1].emission, Some(2 * UNIT));
}

#[test]
fn total_emission_uses_entered_volume() {
    let refs = load_references(&reference_workbook()).unwrap();
    let sheets = imported(&["道路工程 A", "道路工程 B"]);
    let a = aggregate(&sheets, &refs).unwrap();
    let mut ov = VolumeOverrides::new();
    assert_eq!(a.rows[1].total_emission_with(&ov), "-");
    assert_eq!(a.rows[0].total_emission_with(&ov), "");
    assert!(matches!(
        ov.set("道路工程 A".to_string(), "abc".to_string()),
        Err(VolumeError::NotANumber)
    ));
    assert_eq!(ov.volume("道路工程 A"), None);
    ov.set("道路工程 A".to_string(), "2.5".to_string()).unwrap();
    assert_eq!(a.rows[1].total_emission_with(&ov), "28.75");
    assert_eq!(a.rows[2].total_emission_with(&ov), "-");
    assert_eq!(a.rows[1].volume, "右键编辑");
    assert_eq!(a.rows[1].sheet, "道路工程 A");
    ov.set("道路工程 A".to_string(), String::new()).unwrap();
    assert_eq!(ov.volume("道路工程 A"), Some(String::new()));
    assert_eq!(a.rows[1].total_emission_with(&ov), "-");
    assert_eq!(a.rows[1].total_emission_text(), "-");
}

#[test]
fn export_writes_header_and_cells() {
    let refs = load_references(&reference_workbook()).unwrap();
    let sheets = imported(&["道路工程 A"]);
    let a = aggregate(&sheets, &refs).unwrap();
    let mut ov = VolumeOverrides::new();
    ov.set("道路工程 A".to_string(), "10".to_string()).unwrap();
    let t = export_table(&a.rows, &ov);
    assert_eq!(t.len(), 3);
    assert_eq!(
        t[0],
        vec!["序号", "项目名称", "单位", "工程量", "总碳排放量", "人工", "材料", "机械", "小计"]
    );
    assert_eq!(t[0], result_columns());
    assert_eq!(t[1], vec!["一", "道路工程", "", "", "", "", "", "", ""]);
    assert_eq!(
        t[2],
        vec!["1", "A", "m2", "10", "115.00", "6.00", "3.50", "2.00", "11.50"]
    );
    let plain = export_table(&a.rows, &VolumeOverrides::new());
    assert_eq!(plain[2][3], "右键编辑");
    assert_eq!(plain[2][4], "-");
}

#[test]
fn summary_rows_lead_back_to_their_sheet() {
    let sheets = imported(&["道路工程 主线", "交通工程 标志", "独立"]);
    assert_eq!(find_sheet_by_short_name(&sheets, "标志"), Some(1));
    assert_eq!(find_sheet_by_short_name(&sheets, "主线"), Some(0));
    assert_eq!(find_sheet_by_short_name(&sheets, ""), None);
    assert_eq!(find_sheet_by_short_name(&sheets, "独立"), None);
    let a = aggregate(&sheets, &ReferenceTables::empty()).unwrap();
    assert!(a.rows.iter().all(|r| r.subtotal_fits()));
    let independent: Vec<&str> = a.rows.iter().map(|r| r.name.as_str()).collect();
    assert_eq!(independent, vec!["交通工程", "标志", "独立", "", "道路工程", "主线"]);
}
