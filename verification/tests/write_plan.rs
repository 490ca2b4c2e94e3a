use liao_tools::commands::excel::processor::{
    complete, embed_failure_log, generate_output_path, leave_picture_out, output_file_name,
    plan_transformation, process_excel_file, write_processed_data,
};
use liao_tools::commands::excel::reader::{ExcelSheet, SheetCell};
use liao_tools::commands::excel::styles::CellStyle;
use liao_tools::commands::excel::worksheet::{key_of, EmbeddedImage, SheetMetadata};
use liao_tools::commands::excel::writer::{
    create_center_format, create_default_format, create_format_with_style, create_weight_format,
    embed_image_to_cell, embed_image_to_cell_with_size, merge_range, parse_color, set_column_width,
    set_row_height, write_cell, CellContent, CellValue, StyledCellValue, WriteAction,
};
use liao_tools::models::excel::{MergedRange, ProcessConfig, ProcessType};
use liao_tools::text_map::TextMap;
use std::io::{Cursor, Write};
use zip::write::FileOptions;
use zip::ZipWriter;

fn style(format: Option<&str>, background: Option<&str>) -> CellStyle {
    CellStyle {
        number_format: format.map(str::to_string),
        background_color: background.map(str::to_string),
        font_color: None,
        is_bold: false,
    }
}

fn picture(len: usize) -> EmbeddedImage {
    EmbeddedImage { image_id: "p".to_string(), data: vec![7; len], extension: "png".to_string() }
}

fn describe(action: &WriteAction) -> String {
    match action {
        WriteAction::SetColumnWidth { col, width } => format!("width {} {}", col, width),
        WriteAction::SetRowHeight { row, points } => format!("height {} {}", row, points),
        WriteAction::WriteCell { row, col, content, format } => {
            let content = match content {
                CellContent::Text(t) => format!("text[{}]", t),
                CellContent::Number(n) => format!("number[{}]", n),
                CellContent::Integer(i) => format!("integer[{}]", i),
                CellContent::Formula(f) => format!("formula[{}]", f),
            };
            format!(
                "cell {} {} {} fmt={:?} bg={:?}",
                row, col, content, format.number_format, format.background
            )
        }
        WriteAction::MergeRange { first_row, first_col, last_row, last_col } => {
            format!("merge {} {} {} {}", first_row, first_col, last_row, last_col)
        }
        WriteAction::EmbedImage { row, col, image, size, x_offset, y_offset, fallback } => format!(
            "image {} {} {}b size={} at {},{} else fmt={:?} bg={:?}",
            row,
            col,
            image.data.len(),
            size,
            x_offset,
            y_offset,
            fallback.number_format,
            fallback.background
        ),
    }
}

#[test]
fn colours_are_read_from_six_hexadecimal_digits() {
    assert_eq!(parse_color("FF0000"), Some(0xFF0000));
    assert_eq!(parse_color("#00ff7F"), Some(0x00FF7F));
    assert_eq!(parse_color("##123456"), Some(0x123456));
    assert_eq!(parse_color("1234567"), Some(0x123456));
    assert_eq!(parse_color("+a+b+c"), None);
    assert_eq!(parse_color("+1+2+3"), None);
    assert_eq!(parse_color("12345"), None);
    assert_eq!(parse_color("#12345"), None);
    assert_eq!(parse_color("GG0000"), None);
    assert_eq!(parse_color("-10000"), None);
    assert_eq!(parse_color("1+0000"), None);
    assert_eq!(parse_color(""), None);
}

#[test]
fn formats_follow_the_house_style() {
    let plain = create_default_format();
    assert!(plain.centered && plain.vertically_centered && plain.wrap_text && plain.thin_border);
    assert_eq!(plain.number_format, None);
    assert_eq!(plain.background, None);

    let centered = create_center_format();
    assert!(centered.centered && centered.vertically_centered);
    assert!(!centered.wrap_text && !centered.thin_border);

    let none = create_format_with_style(None);
    assert_eq!((none.number_format, none.background), (None, None));
    assert!(none.centered && none.vertically_centered && none.wrap_text && none.thin_border);

    let general = style(Some("General"), Some("FFFF00"));
    let format = create_format_with_style(Some(&general));
    assert_eq!(format.number_format, None);
    assert_eq!(format.background, Some(0xFFFF00));

    let percent = style(Some("0%"), Some("nonsense"));
    let format = create_format_with_style(Some(&percent));
    assert_eq!(format.number_format.as_deref(), Some("0%"));
    assert_eq!(format.background, None);
}

#[test]
fn a_weight_format_always_shows_two_decimals() {
    let format = create_weight_format(None);
    assert_eq!(format.number_format.as_deref(), Some("0.00"));
    assert_eq!(format.background, None);
    assert!(format.centered && format.vertically_centered && format.wrap_text && format.thin_border);
    let inherited = style(Some("0.000"), Some("00FF00"));
    let format = create_weight_format(Some(&inherited));
    assert_eq!(format.number_format.as_deref(), Some("0.00"));
    assert_eq!(format.background, Some(0x00FF00));
}

#[test]
fn values_are_sniffed_from_text() {
    let read = |s: &str| CellValue::from_string(Some(s.to_string()));
    assert!(matches!(read("42"), CellValue::Integer(42)));
    assert!(matches!(read("+42"), CellValue::Integer(42)));
    assert!(matches!(read("-9223372036854775808"), CellValue::Integer(i64::MIN)));
    assert!(matches!(read("9223372036854775807"), CellValue::Integer(i64::MAX)));
    assert!(matches!(read("9223372036854775808"), CellValue::Number(n) if n == "9223372036854775808"));
    for number in ["1.5", "-0.25", ".5", "5.", "1e3", "1E-3", "+1.e+2", "inf", "-Infinity", "NaN"] {
        assert!(matches!(read(number), CellValue::Number(n) if n == number), "{}", number);
    }
    for words in [".", "e3", "1e", "1e+", "1.2.3", " 1", "1 ", "0x10", "infinit", "--1", "١٢"] {
        assert!(matches!(read(words), CellValue::String(s) if s == words), "{}", words);
    }
    assert!(matches!(read(""), CellValue::Empty));
    assert!(matches!(CellValue::from_string(None), CellValue::Empty));
}

#[test]
fn sniffing_agrees_with_the_standard_number_parsers() {
    let samples = [
        "0", "-0", "+0", "00012", "1.", ".1", "1.0e10", "1e-400", "+.5e1", "-", "+", "e", ".e1",
        "1e1.5", "nan", "NAN", "+nan", "inF", "infinity", "infinityy", "1_000", "٣", "12a", "",
    ];
    for sample in samples {
        let value = CellValue::from_string(Some(sample.to_string()));
        let kind = match value {
            CellValue::Empty => 0,
            CellValue::Integer(_) => 1,
            CellValue::Number(_) => 2,
            CellValue::String(_) => 3,
            CellValue::Formula(_) => 4,
        };
        let expected = if sample.is_empty() {
            0
        } else if sample.parse::<i64>().is_ok() {
            1
        } else if sample.parse::<f64>().is_ok() {
            2
        } else {
            3
        };
        assert_eq!(kind, expected, "{:?}", sample);
    }
}

#[test]
fn amounts_are_written_as_briefly_as_is_exact() {
    let show = |a: i64| match CellValue::from_amount(Some(a)) {
        CellValue::Integer(i) => format!("i:{}", i),
        CellValue::Number(n) => format!("n:{}", n),
        _ => "?".to_string(),
    };
    assert_eq!(show(0), "i:0");
    assert_eq!(show(5_000_000), "i:5");
    assert_eq!(show(-12_000_000), "i:-12");
    assert_eq!(show(5_500_000), "n:5.5");
    assert_eq!(show(5_050_000), "n:5.05");
    assert_eq!(show(50_000), "n:0.05");
    assert_eq!(show(-500_000), "n:-0.5");
    assert_eq!(show(-10_000), "n:-0.01");
    assert_eq!(show(125_000), "n:0.125");
    assert_eq!(show(100_100), "n:0.1001");
    assert_eq!(show(1), "n:0.000001");
    assert_eq!(show(-1_000_001), "n:-1.000001");
    assert_eq!(show(999_999), "n:0.999999");
    assert_eq!(show(i64::MAX), "n:9223372036854.775807");
    assert_eq!(show(i64::MIN), "n:-9223372036854.775808");
    assert!(matches!(CellValue::from_amount(None), CellValue::Empty));
}

#[test]
fn weights_are_written_with_two_decimals() {
    let show = |a: i64| match StyledCellValue::weight(a, None).value {
        CellValue::Number(n) => n,
        _ => "?".to_string(),
    };
    assert_eq!(show(2000), "20.00");
    assert_eq!(show(0), "0.00");
    assert_eq!(show(7), "0.07");
    assert_eq!(show(-7), "-0.07");
    assert_eq!(show(123456), "1234.56");
    assert_eq!(show(i64::MIN), "-92233720368547758.08");
    let cell = StyledCellValue::weight(1, Some(style(Some("0"), None)));
    assert!(cell.is_weight_cell);
    assert!(cell.image.is_none());
    assert_eq!(cell.style.unwrap().number_format.as_deref(), Some("0"));
}

#[test]
fn cells_are_built_with_or_without_a_picture() {
    let plain = StyledCellValue::new(CellValue::Integer(3), None);
    assert!(!plain.is_weight_cell && plain.image.is_none() && plain.style.is_none());
    let shown = StyledCellValue::with_image(CellValue::Empty, None, picture(9));
    assert!(!shown.is_weight_cell);
    assert_eq!(shown.image.unwrap().data.len(), 9);
}

#[test]
fn single_steps_say_what_is_asked_of_them() {
    assert_eq!(describe(&set_column_width(3, "12.5")), "width 3 12.5");
    assert_eq!(describe(&set_row_height(9, 20)), "height 9 20");
    assert_eq!(describe(&merge_range(1, 2, 3, 4)), "merge 1 2 3 4");
    let write = |value: CellValue| describe(&write_cell(1, 2, &value, create_default_format()));
    assert_eq!(write(CellValue::String("hi".into())), "cell 1 2 text[hi] fmt=None bg=None");
    assert_eq!(write(CellValue::Number("1.5".into())), "cell 1 2 number[1.5] fmt=None bg=None");
    assert_eq!(write(CellValue::Integer(-4)), "cell 1 2 integer[-4] fmt=None bg=None");
    assert_eq!(write(CellValue::Formula("=A1+B1".into())), "cell 1 2 formula[A1+B1] fmt=None bg=None");
    assert_eq!(write(CellValue::Formula("==A1".into())), "cell 1 2 formula[=A1] fmt=None bg=None");
    assert_eq!(write(CellValue::Formula("A1".into())), "cell 1 2 formula[A1] fmt=None bg=None");
    assert_eq!(write(CellValue::Formula("".into())), "cell 1 2 formula[] fmt=None bg=None");
    assert_eq!(write(CellValue::Empty), "cell 1 2 text[] fmt=None bg=None");
}

#[test]
fn a_picture_needs_eight_bytes_to_be_embedded() {
    assert_eq!(
        describe(&embed_image_to_cell(2, 3, &picture(8), create_format_with_style(None)).unwrap()),
        "image 2 3 8b size=18 at 21,4 else fmt=None bg=None"
    );
    let empty = embed_image_to_cell(2, 3, &picture(0), create_format_with_style(None)).unwrap_err();
    assert_eq!((empty.code.as_str(), empty.message.as_str()), ("IMAGE_ERROR", "图片数据为空"));
    let short = embed_image_to_cell(2, 3, &picture(7), create_format_with_style(None)).unwrap_err();
    assert_eq!(
        (short.code.as_str(), short.message.as_str()),
        ("IMAGE_ERROR", "图片数据太短，无法识别格式")
    );
    assert_eq!(
        describe(
            &embed_image_to_cell_with_size(0, 0, &picture(8), 18, 60, 26, create_weight_format(None))
                .unwrap()
        ),
        "image 0 0 8b size=18 at 21,4 else fmt=Some(\"0.00\") bg=None"
    );
    assert_eq!(
        describe(
            &embed_image_to_cell_with_size(0, 0, &picture(8), 40, 30, 41, create_format_with_style(None))
                .unwrap()
        ),
        "image 0 0 8b size=40 at 0,0 else fmt=None bg=None"
    );
    assert!(
        embed_image_to_cell_with_size(0, 0, &picture(4), 18, 60, 26, create_format_with_style(None))
            .is_err()
    );
}

#[test]
fn a_picture_too_short_leaves_its_cell_empty_and_is_logged() {
    let data = vec![
        vec![
            StyledCellValue::new(CellValue::String("a".into()), None),
            StyledCellValue::with_image(CellValue::Empty, Some(style(Some("0%"), Some("112233"))), picture(4)),
            StyledCellValue::with_image(CellValue::Empty, Some(style(Some("0.0"), Some("0000FF"))), picture(12)),
        ],
        vec![
            StyledCellValue::weight(2000, Some(style(Some("0.0"), Some("445566")))),
            StyledCellValue::new(CellValue::Formula("=A1".into()), Some(style(Some("General"), None))),
            StyledCellValue::new(CellValue::Empty, None),
        ],
    ];
    let mut metadata = SheetMetadata::blank();
    metadata.column_widths.insert(1, "22".to_string());
    metadata.column_widths.insert(7, "99".to_string());
    let mut logs = vec!["before".to_string()];
    let actions = write_processed_data(&data, &metadata, &mut logs);
    let steps: Vec<String> = actions.iter().map(describe).collect();
    assert_eq!(
        steps,
        vec![
            "width 0 8.43",
            "width 1 22",
            "width 2 8.43",
            "height 0 20",
            "cell 0 0 text[a] fmt=None bg=None",
            "cell 0 1 text[] fmt=Some(\"0%\") bg=Some(1122867)",
            "image 0 2 12b size=18 at 21,4 else fmt=Some(\"0.0\") bg=Some(255)",
            "height 1 20",
            "cell 1 0 number[20.00] fmt=Some(\"0.00\") bg=Some(4478310)",
            "cell 1 1 formula[A1] fmt=None bg=None",
            "cell 1 2 text[] fmt=None bg=None",
        ]
    );
    assert_eq!(
        logs,
        vec![
            "before",
            "发现 2 个图片待嵌入",
            "嵌入图片失败 (1, 2): 图片数据太短，无法识别格式",
            "保存文件..."
        ]
    );
}

#[test]
fn nothing_to_write_still_gets_saved() {
    let mut logs = Vec::new();
    let actions = write_processed_data(&Vec::new(), &SheetMetadata::blank(), &mut logs);
    assert!(actions.is_empty());
    assert_eq!(logs, vec!["保存文件..."]);
}

#[test]
fn a_picture_that_is_refused_leaves_its_cell_empty_and_is_logged() {
    let format = create_format_with_style(Some(&style(Some("0%"), Some("112233"))));
    let step = embed_image_to_cell(4, 6, &picture(9), format).unwrap();
    let (line, next) = leave_picture_out(&step, "no such format").unwrap();
    assert_eq!(line, "嵌入图片失败 (5, 7): no such format");
    assert_eq!(describe(&next), "cell 4 6 text[] fmt=Some(\"0%\") bg=Some(1122867)");
    assert!(leave_picture_out(&next, "no such format").is_none());
    assert!(leave_picture_out(&set_row_height(1, 20), "x").is_none());
    assert!(leave_picture_out(&merge_range(0, 0, 1, 1), "x").is_none());
}

#[test]
fn the_failure_line_counts_from_one() {
    assert_eq!(embed_failure_log(0, 0, "why"), "嵌入图片失败 (1, 1): why");
    assert_eq!(
        embed_failure_log(u32::MAX, 41, "x"),
        "嵌入图片失败 (4294967296, 42): x"
    );
}

#[test]
fn the_new_workbook_is_named_after_the_old_one() {
    assert_eq!(output_file_name("book", Some("xlsx")), "book_拆分表.xlsx");
    assert_eq!(output_file_name("book", Some("xlsm")), "book_拆分表.xlsm");
    assert_eq!(output_file_name("book", None), "book_拆分表.xlsx");
    assert_eq!(output_file_name("", Some("")), "_拆分表.");
}

#[test]
fn the_new_workbook_goes_beside_the_old_one() {
    let path = generate_output_path("some/dir/book.v2.xlsx").unwrap();
    let expected = std::path::Path::new("some/dir").join("book.v2_拆分表.xlsx");
    assert_eq!(std::path::Path::new(&path), expected.as_path());
    let bare = generate_output_path("book").unwrap();
    assert_eq!(bare, "book_拆分表.xlsx");
    let error = generate_output_path("").unwrap_err();
    assert_eq!((error.code.as_str(), error.message.as_str()), ("FILE_ERROR", "无法获取文件目录"));
    let error = generate_output_path("..").unwrap_err();
    assert_eq!((error.code.as_str(), error.message.as_str()), ("FILE_ERROR", "无法获取文件名"));
}

fn text(value: &str) -> SheetCell {
    SheetCell { text: Some(value.to_string()), amount: None, blank: false }
}

fn number(hundredths: i64, shown: &str) -> SheetCell {
    SheetCell { text: Some(shown.to_string()), amount: Some(hundredths * 10_000), blank: false }
}

fn small_sheet() -> ExcelSheet {
    ExcelSheet {
        rows: vec![
            vec![text("a"), number(200, "2"), number(1000, "10")],
            vec![text("b"), number(300, "3"), SheetCell { text: None, amount: None, blank: true }],
            vec![
                SheetCell { text: None, amount: None, blank: true },
                SheetCell { text: None, amount: None, blank: true },
                SheetCell { text: None, amount: None, blank: true },
            ],
        ],
        width: 3,
    }
}

fn small_config() -> ProcessConfig {
    ProcessConfig { process_type: ProcessType::SeaRailNoImage, weight_column: 3, box_column: 1, copy_images: false }
}

#[test]
fn a_plan_holds_the_sheet_the_steps_and_the_log() {
    let mut metadata = SheetMetadata::blank();
    metadata.merged_ranges.push(MergedRange { start_row: 0, start_col: 2, end_row: 1, end_col: 2 });
    metadata.cell_images.insert(
        key_of(9, 9),
        EmbeddedImage { image_id: "far".into(), data: vec![1; 8], extension: "png".into() },
    );
    metadata.converted_images.push("a.webp (WebP->PNG)".to_string());
    metadata.converted_images.push("b.webp (WebP->PNG)".to_string());
    metadata.unsupported_images.push("c.emf".to_string());
    let plan = plan_transformation("in/book.xlsx", &small_sheet(), &metadata, &small_config(), "out/book.xlsx".to_string());
    assert_eq!(plan.output_path, "out/book.xlsx");
    assert_eq!(plan.data.len(), 2);
    let steps: Vec<String> = plan.actions.iter().map(describe).collect();
    assert_eq!(
        steps,
        vec![
            "width 0 8.43",
            "width 1 8.43",
            "width 2 8.43",
            "height 0 20",
            "cell 0 0 text[a] fmt=None bg=None",
            "cell 0 1 integer[2] fmt=None bg=None",
            "cell 0 2 number[4.00] fmt=Some(\"0.00\") bg=None",
            "height 1 20",
            "cell 1 0 text[b] fmt=None bg=None",
            "cell 1 1 integer[3] fmt=None bg=None",
            "cell 1 2 number[6.00] fmt=Some(\"0.00\") bg=None",
        ]
    );
    assert_eq!(
        plan.logs,
        vec![
            "开始处理文件: in/book.xlsx",
            "处理类型: SeaRailNoImage",
            "成功打开 Excel 文件",
            "读取工作表，共 3 行 3 列",
            "检测到 1 个合并单元格区域",
            "检测到 1 个图片",
            "✓ 自动转换了 2 个图片格式: a.webp (WebP->PNG), b.webp (WebP->PNG)",
            "⚠️ 跳过 1 个无法处理的图片: c.emf",
            "第 3 行第一列为空，停止处理",
            "处理完成，共 2 行数据",
            "输出文件路径: out/book.xlsx",
            "保存文件...",
        ]
    );
    let response = complete(plan.output_path, plan.logs);
    assert!(response.success);
    assert_eq!(response.output_path, "out/book.xlsx");
    assert_eq!(response.message, "处理完成");
    assert_eq!(response.logs.len(), 13);
    assert_eq!(response.logs.last().unwrap(), "成功写入处理后的文件");
}

fn package(parts: &[(&str, &[u8])]) -> Vec<u8> {
    let mut writer = ZipWriter::new(Cursor::new(Vec::new()));
    for (name, data) in parts {
        writer.start_file(*name, FileOptions::default()).unwrap();
        writer.write_all(data).unwrap();
    }
    writer.finish().unwrap().into_inner()
}

#[test]
fn a_workbook_is_transformed_from_its_package_and_its_values() {
    let sheet_xml = r#"<worksheet><cols><col min="3" max="3" width="14"/></cols>
        <sheetData><row><c r="A1"/></row></sheetData>
        <mergeCells><mergeCell ref="C1:C2"/></mergeCells></worksheet>"#;
    let bytes = package(&[("xl/worksheets/sheet1.xml", sheet_xml.as_bytes())]);
    let plan =
        process_excel_file("book.xlsx", bytes, &TextMap::new(), &small_sheet(), &small_config())
            .unwrap();
    assert_eq!(plan.output_path, "book_拆分表.xlsx");
    let steps: Vec<String> = plan.actions.iter().map(describe).collect();
    assert_eq!(steps[2], "width 2 14");
    assert_eq!(steps[6], "cell 0 2 number[4.00] fmt=Some(\"0.00\") bg=None");
    assert_eq!(steps[10], "cell 1 2 number[6.00] fmt=Some(\"0.00\") bg=None");
    assert_eq!(plan.logs[4], "检测到 1 个合并单元格区域");
    assert_eq!(plan.logs[7], "输出文件路径: book_拆分表.xlsx");

    let error = process_excel_file(
        "book.xlsx",
        vec![1, 2, 3],
        &TextMap::new(),
        &small_sheet(),
        &small_config(),
    )
    .unwrap_err();
    assert_eq!(error.code, "FILE_ERROR");
}
