use liao_tools::commands::excel::merge_parser::parse_sheet_metadata;
use liao_tools::commands::excel::processor::process_excel_file;
use liao_tools::commands::excel::reader::{ExcelSheet, SheetCell};
use liao_tools::commands::excel::worksheet::key_of;
use liao_tools::commands::excel::writer::{CellContent, WriteAction};
use liao_tools::models::excel::{ProcessConfig, ProcessType};
use liao_tools::text_map::TextMap;
use rust_xlsxwriter::{Color, Format, Workbook};

/// Columns: 0 name, 1 boxes, 2 quantity, 3 weight, 4 note.
fn workbook() -> Vec<u8> {
    let mut book = Workbook::new();
    let sheet = book.add_worksheet();
    let yellow = Format::new().set_num_format("0.00").set_background_color(Color::RGB(0xFFFF00));
    let plain = Format::new();
    sheet.set_column_width(0, 30).unwrap();
    for (row, (name, quantity)) in [("a", 2), ("b", 3), ("c", 5)].iter().enumerate() {
        sheet.write_string(row as u32, 0, *name).unwrap();
        sheet.write_number(row as u32, 2, *quantity).unwrap();
    }
    sheet.merge_range(0, 1, 2, 1, "", &plain).unwrap();
    sheet.write_number_with_format(0, 1, 4, &plain).unwrap();
    sheet.merge_range(0, 3, 2, 3, "", &yellow).unwrap();
    sheet.write_number_with_format(0, 3, 100, &yellow).unwrap();
    sheet.write_formula(0, 4, "=SUM(C1:C3)").unwrap();
    sheet.write_string(1, 4, "note").unwrap();
    book.save_to_buffer().unwrap()
}

fn values() -> ExcelSheet {
    let text = |s: &str| SheetCell { text: Some(s.to_string()), amount: None, blank: false };
    let number = |h: i64, s: &str| SheetCell { text: Some(s.to_string()), amount: Some(h * 10_000), blank: false };
    let blank = || SheetCell { text: None, amount: None, blank: true };
    ExcelSheet {
        rows: vec![
            vec![text("a"), number(400, "4"), number(200, "2"), number(10000, "100"), number(1000, "10")],
            vec![text("b"), blank(), number(300, "3"), blank(), text("note")],
            vec![text("c"), blank(), number(500, "5"), blank(), blank()],
        ],
        width: 5,
    }
}

#[test]
fn facts_of_a_written_workbook_are_read_back() {
    let metadata = parse_sheet_metadata(workbook(), &TextMap::new()).unwrap();
    let mut corners: Vec<(u32, u32, u32, u32)> = metadata
        .merged_ranges
        .iter()
        .map(|r| (r.start_row, r.start_col, r.end_row, r.end_col))
        .collect();
    corners.sort();
    assert_eq!(corners, vec![(0, 1, 2, 1), (0, 3, 2, 3)]);
    assert!(metadata.column_widths.get(&0).is_some());
    assert!(metadata.column_widths.get(&0).unwrap().parse::<f64>().unwrap() > 29.0);
    let weight = metadata.cell_styles.get(&key_of(0, 3)).unwrap();
    assert_eq!(weight.number_format.as_deref(), Some("0.00"));
    assert_eq!(weight.background_color.as_deref(), Some("FFFF00"));
    assert_eq!(
        metadata.cell_formulas.get(&key_of(0, 4)).map(String::as_str),
        Some("=SUM(C1:C3)")
    );
    assert!(metadata.cell_images.is_empty());
}

#[test]
fn a_written_workbook_is_transformed() {
    let config = ProcessConfig {
        process_type: ProcessType::SeaRailNoImage,
        weight_column: 4,
        box_column: 2,
        copy_images: false,
    };
    assert!(values().is_well_formed());
    let plan =
        process_excel_file("dir/book.xlsx", workbook(), &TextMap::new(), &values(), &config)
            .unwrap();
    let mut weights = Vec::new();
    let mut boxes = Vec::new();
    let mut formulas = Vec::new();
    for action in &plan.actions {
        if let WriteAction::WriteCell { row, col, content, format } = action {
            match (col, content) {
                (3, CellContent::Number(n)) => {
                    assert_eq!(format.number_format.as_deref(), Some("0.00"));
                    assert_eq!(format.background, Some(0xFFFF00));
                    weights.push((*row, n.clone()));
                }
                (1, CellContent::Integer(i)) => boxes.push((*row, *i)),
                (_, CellContent::Formula(f)) => formulas.push((*row, *col, f.clone())),
                _ => {}
            }
        }
    }
    assert_eq!(
        weights,
        vec![(0, "20.00".to_string()), (1, "30.00".to_string()), (2, "50.00".to_string())]
    );
    assert_eq!(boxes, vec![(0, 4), (1, 0), (2, 0)]);
    assert_eq!(formulas, vec![(0, 4, "SUM(C1:C3)".to_string())]);
    assert_eq!(plan.data.len(), 3);
    assert!(plan.logs.contains(&"检测到 2 个合并单元格区域".to_string()));
    assert!(plan.logs.contains(&"处理完成，共 3 行数据".to_string()));
}
