use liao_tools::commands::excel::merge_parser::{
    parse_cellimages_rels, parse_drawing_rels, parse_merged_cells, parse_sheet_metadata,
    read_picture_links,
};
use liao_tools::commands::excel::package::{Package, PartText};
use liao_tools::commands::excel::worksheet::key_of;
use liao_tools::text_map::TextMap;
use std::io::{Cursor, Write};
use zip::write::FileOptions;
use zip::ZipWriter;

const PNG: &[u8] = &[0x89, 0x50, 0x4E, 0x47, 0x0D, 0x0A, 0x1A, 0x0A, 1, 2, 3, 4];
const JPEG: &[u8] = &[0xFF, 0xD8, 0xFF, 0xE0, 9, 9, 9, 9, 9];

fn package(parts: &[(&str, &[u8])]) -> Vec<u8> {
    let mut writer = ZipWriter::new(Cursor::new(Vec::new()));
    for (name, data) in parts {
        writer.start_file(*name, FileOptions::default()).unwrap();
        writer.write_all(data).unwrap();
    }
    writer.finish().unwrap().into_inner()
}

const SHEET: &str = r#"<worksheet>
  <sheetData>
    <row r="1">
      <c r="A1"><f>_xlfn.DISPIMG("ID_ONE",1)</f></c>
      <c r="B1"><f>_xlfn.DISPIMG("ID_GONE",1)</f></c>
      <c r="C1" s="1"><f>A2*2</f></c>
    </row>
  </sheetData>
  <mergeCells><mergeCell ref="A5:A7"/></mergeCells>
</worksheet>"#;

const STYLES: &str = r#"<styleSheet><cellXfs><xf numFmtId="0"/><xf numFmtId="2"/></cellXfs></styleSheet>"#;

const CELL_IMAGES: &str = r#"<cellImages><cellImage><pic><cNvPr name="ID_ONE"/><blip embed="rId1"/></pic></cellImage></cellImages>"#;

const CELL_RELS: &str =
    r#"<Relationships><Relationship Id="rId1" Target="media/image1.png"/></Relationships>"#;

const DRAWING: &str = r#"<wsDr>
  <twoCellAnchor><from><col>0</col><row>0</row></from><pic><cNvPr name="p"/><blip embed="rId5"/></pic></twoCellAnchor>
  <twoCellAnchor><from><col>3</col><row>2</row></from><pic><cNvPr name="ID_DRAWN"/><blip embed="rId5"/></pic></twoCellAnchor>
</wsDr>"#;

const DRAWING_RELS: &str =
    r#"<Relationships><Relationship Id="rId5" Target="../media/image2.jpeg"/></Relationships>"#;

fn whole_package() -> Vec<u8> {
    package(&[
        ("xl/styles.xml", STYLES.as_bytes()),
        ("xl/worksheets/sheet1.xml", SHEET.as_bytes()),
        ("xl/cellimages.xml", CELL_IMAGES.as_bytes()),
        ("xl/_rels/cellimages.xml.rels", CELL_RELS.as_bytes()),
        ("xl/drawings/drawing1.xml", DRAWING.as_bytes()),
        ("xl/drawings/_rels/drawing1.xml.rels", DRAWING_RELS.as_bytes()),
        ("xl/media/image1.png", PNG),
        ("xl/media/image2.jpeg", JPEG),
        ("xl/media/image3.wmf", &[0xD7, 0xCD, 0xC6, 0x9A, 0, 0, 0, 0, 0]),
    ])
}

#[test]
fn parts_are_read_by_name() {
    let mut opened = Package::open(whole_package()).unwrap();
    match opened.read_part("xl/styles.xml") {
        PartText::Text(text) => assert_eq!(text, STYLES),
        other => panic!("expected text, got {:?}", other),
    }
    assert!(matches!(opened.read_part("xl/nothing.xml"), PartText::Missing(_)));
    assert!(matches!(opened.read_part("xl/media/image1.png"), PartText::Unreadable(_)));
    match opened.read_part("xl/worksheets/sheet1.xml") {
        PartText::Text(text) => assert_eq!(text, SHEET),
        other => panic!("expected text, got {:?}", other),
    }
}

#[test]
fn pictures_of_a_package_are_sorted() {
    let mut opened = Package::open(whole_package()).unwrap();
    let media = opened.read_media_files(&TextMap::new());
    assert_eq!(media.files.get("image1.png").unwrap().data, PNG);
    assert_eq!(media.files.get("image2.jpeg").unwrap().extension, "jpeg");
    assert!(media.converted.is_empty());
    assert_eq!(media.unsupported, vec!["image3.wmf".to_string()]);
}

#[test]
fn what_is_no_archive_is_a_file_error() {
    let error = parse_sheet_metadata(b"this is no archive".to_vec(), &TextMap::new()).unwrap_err();
    assert_eq!(error.code, "FILE_ERROR");
    assert!(error.message.starts_with("解析 ZIP 文件失败: "));
    assert!(Package::open(Vec::new()).is_err());
}

#[test]
fn a_package_without_a_worksheet_is_a_file_error() {
    let error = parse_sheet_metadata(package(&[("xl/styles.xml", STYLES.as_bytes())]), &TextMap::new()).unwrap_err();
    assert_eq!(error.code, "FILE_ERROR");
    assert!(error.message.starts_with("找不到工作表 XML: "));
}

#[test]
fn a_worksheet_that_is_no_text_is_a_file_error() {
    let error =
        parse_sheet_metadata(package(&[("xl/worksheets/sheet1.xml", &[0xFF, 0xFE, 0x00])]), &TextMap::new())
            .unwrap_err();
    assert_eq!(error.code, "FILE_ERROR");
    assert_eq!(error.message, "读取 XML 失败: stream did not contain valid UTF-8");
}

#[test]
fn styles_are_read_before_the_worksheet() {
    let error = parse_sheet_metadata(package(&[
        ("xl/styles.xml", b"<a></b>"),
        ("xl/worksheets/sheet1.xml", b"<c></d>"),
    ]), &TextMap::new())
    .unwrap_err();
    assert_eq!(error.code, "PARSE_ERROR");
    assert!(error.message.starts_with("样式 XML 解析错误: "));

    let error = parse_sheet_metadata(package(&[
        ("xl/styles.xml", &[0xC0]),
        ("xl/worksheets/sheet1.xml", SHEET.as_bytes()),
    ]), &TextMap::new())
    .unwrap_err();
    assert_eq!(error.code, "FILE_ERROR");
    assert!(error.message.starts_with("读取样式 XML 失败: "));

    let error = parse_sheet_metadata(package(&[("xl/worksheets/sheet1.xml", b"<c></d>")]), &TextMap::new())
        .unwrap_err();
    assert_eq!(error.code, "PARSE_ERROR");
    assert!(error.message.starts_with("XML 解析错误: "));
}

#[test]
fn a_bare_worksheet_is_enough() {
    let metadata =
        parse_sheet_metadata(package(&[("xl/worksheets/sheet1.xml", SHEET.as_bytes())]), &TextMap::new()).unwrap();
    assert_eq!(metadata.merged_ranges.len(), 1);
    assert_eq!(metadata.cell_formulas.len(), 3);
    assert!(metadata.cell_styles.is_empty());
    assert!(metadata.cell_images.is_empty());
    assert!(metadata.converted_images.is_empty());
    assert!(metadata.unsupported_images.is_empty());
    assert_eq!(metadata.default_column_width, "8.43");
}

#[test]
fn pictures_are_brought_to_their_cells() {
    let metadata = parse_sheet_metadata(whole_package(), &TextMap::new()).unwrap();
    let shown = metadata.cell_images.get(&key_of(0, 0)).unwrap();
    assert_eq!(shown.image_id, "ID_ONE");
    assert_eq!(shown.data, PNG);
    assert_eq!(shown.extension, "png");
    assert!(metadata.cell_images.get(&key_of(0, 1)).is_none());
    let anchored = metadata.cell_images.get(&key_of(2, 3)).unwrap();
    assert_eq!(anchored.image_id, "floating_2_3_rId5");
    assert_eq!(anchored.data, JPEG);
    assert_eq!(anchored.extension, "jpeg");
    assert_eq!(metadata.cell_images.len(), 2);
    assert_eq!(metadata.unsupported_images, vec!["image3.wmf".to_string()]);
    assert_eq!(
        metadata.cell_styles.get(&key_of(0, 2)).unwrap().number_format.as_deref(),
        Some("0.00")
    );
}

#[test]
fn the_drawing_stands_in_for_a_missing_cell_image_list() {
    let sheet = r#"<worksheet><sheetData><row><c r="F9"><f>DISPIMG("ID_DRAWN",1)</f></c></row></sheetData></worksheet>"#;
    let metadata = parse_sheet_metadata(package(&[
        ("xl/worksheets/sheet1.xml", sheet.as_bytes()),
        ("xl/drawings/drawing1.xml", DRAWING.as_bytes()),
        ("xl/drawings/_rels/drawing1.xml.rels", DRAWING_RELS.as_bytes()),
        ("xl/media/image2.jpeg", JPEG),
    ]), &TextMap::new())
    .unwrap();
    let shown = metadata.cell_images.get(&key_of(8, 5)).unwrap();
    assert_eq!(shown.image_id, "ID_DRAWN");
    assert_eq!(shown.data, JPEG);
    assert_eq!(metadata.cell_images.len(), 3);
}

#[test]
fn merged_cells_are_those_of_the_first_worksheet() {
    let ranges = parse_merged_cells(whole_package()).unwrap();
    assert_eq!(ranges.len(), 1);
    assert_eq!(
        (ranges[0].start_row, ranges[0].start_col, ranges[0].end_row, ranges[0].end_col),
        (4, 0, 6, 0)
    );
    assert!(parse_merged_cells(Vec::new()).is_err());
}

#[test]
fn each_relationship_part_is_read_from_its_own_place() {
    let mut opened = Package::open(whole_package()).unwrap();
    let cell = parse_cellimages_rels(&mut opened).unwrap();
    assert_eq!(cell.get("rId1").map(String::as_str), Some("image1.png"));
    assert_eq!(cell.get("rId5"), None);
    let drawing = parse_drawing_rels(&mut opened).unwrap();
    assert_eq!(drawing.get("rId5").map(String::as_str), Some("image2.jpeg"));
    assert_eq!(drawing.get("rId1"), None);
    let mut bare = Package::open(package(&[("xl/worksheets/sheet1.xml", SHEET.as_bytes())])).unwrap();
    assert!(parse_cellimages_rels(&mut bare).unwrap().is_empty());
    assert!(parse_drawing_rels(&mut bare).unwrap().is_empty());
}

const WEBP_HEAD: &[u8] = b"RIFF\x10\x00\x00\x00WEBPVP8 \x00\x00\x00\x00";

#[test]
fn pictures_that_want_conversion_are_handed_out_and_taken_back() {
    let bytes = package(&[
        ("xl/worksheets/sheet1.xml", SHEET.as_bytes()),
        ("xl/media/image1.png", PNG),
        ("xl/media/image2.webp", WEBP_HEAD),
        ("xl/media/image3.webp", WEBP_HEAD),
        ("docs/image4.webp", WEBP_HEAD),
        ("xl/media/image5.wmf", &[0xD7, 0xCD, 0xC6, 0x9A, 0, 0, 0, 0, 0]),
    ]);
    let mut opened = Package::open(bytes.clone()).unwrap();
    let candidates = opened.conversion_candidates();
    let names: Vec<&str> = candidates.iter().map(|(name, _)| name.as_str()).collect();
    assert_eq!(names, vec!["xl/media/image2.webp", "xl/media/image3.webp"]);
    assert_eq!(candidates[0].1, WEBP_HEAD);

    let mut conversions = TextMap::new();
    conversions.insert("xl/media/image2.webp".to_string(), PNG.to_vec());
    conversions.insert("xl/media/image1.png".to_string(), JPEG.to_vec());
    let media = opened.read_media_files(&conversions);
    assert_eq!(media.files.get("image1.png").unwrap().data, PNG);
    let converted = media.files.get("image2.webp").unwrap();
    assert_eq!(converted.data, PNG);
    assert_eq!(converted.extension, "png");
    assert!(media.files.get("image3.webp").is_none());
    assert!(media.files.get("image4.webp").is_none());
    assert_eq!(media.converted, vec!["image2.webp (WebP->PNG)".to_string()]);
    assert_eq!(media.unsupported, vec!["image3.webp".to_string(), "image5.wmf".to_string()]);

    let metadata = parse_sheet_metadata(bytes, &conversions).unwrap();
    assert_eq!(metadata.converted_images, vec!["image2.webp (WebP->PNG)".to_string()]);
    assert_eq!(
        metadata.unsupported_images,
        vec!["image3.webp".to_string(), "image5.wmf".to_string()]
    );
}

#[test]
fn malformed_text_in_any_part_is_a_parse_error() {
    let broken_drawing = format!("{}</pic>", &DRAWING[..DRAWING.rfind("<twoCellAnchor>").unwrap()]);
    let with = |name: &str, text: &str| {
        let mut parts: Vec<(&str, &[u8])> = vec![
            ("xl/styles.xml", STYLES.as_bytes()),
            ("xl/worksheets/sheet1.xml", SHEET.as_bytes()),
            ("xl/cellimages.xml", CELL_IMAGES.as_bytes()),
            ("xl/_rels/cellimages.xml.rels", CELL_RELS.as_bytes()),
            ("xl/drawings/drawing1.xml", DRAWING.as_bytes()),
            ("xl/drawings/_rels/drawing1.xml.rels", DRAWING_RELS.as_bytes()),
            ("xl/media/image1.png", PNG),
        ];
        for part in parts.iter_mut() {
            if part.0 == name {
                part.1 = text.as_bytes();
            }
        }
        parse_sheet_metadata(package(&parts), &TextMap::new())
    };
    assert!(with("none", "").is_ok());
    for (name, text) in [
        ("xl/drawings/drawing1.xml", broken_drawing.as_str()),
        ("xl/cellimages.xml", "<cellImages><cellImage></cellImages>"),
        ("xl/_rels/cellimages.xml.rels", "<Relationships></Relationship>"),
        ("xl/drawings/_rels/drawing1.xml.rels", "<a><b></a>"),
    ] {
        let error = with(name, text).unwrap_err();
        assert_eq!(error.code, "PARSE_ERROR", "{}", name);
        assert!(error.message.starts_with("XML 解析错误: "), "{}", name);
    }
    assert!(with("xl/drawings/drawing1.xml", "").is_ok());
}

const AES_FIELD: [u8; 11] = [0x01, 0x99, 0x07, 0x00, 0x02, 0x00, 0x41, 0x45, 0x03, 0x00, 0x00];

/// A package whose first entry carries the extra field of an AES entry
/// without being marked as encrypted; the other parts follow it untouched.
fn package_with_unmarked_aes_entry(name: &str, data: &[u8], others: &[(&str, &[u8])]) -> Vec<u8> {
    let mut placeholder = AES_FIELD;
    placeholder[0] = 0x03;
    let mut writer = ZipWriter::new(Cursor::new(Vec::new()));
    writer.start_file_with_extra_data(name, FileOptions::default()).unwrap();
    writer.write_all(&placeholder).unwrap();
    writer.end_extra_data().unwrap();
    writer.write_all(data).unwrap();
    for (name, data) in others {
        writer.start_file(*name, FileOptions::default()).unwrap();
        writer.write_all(data).unwrap();
    }
    let mut bytes = writer.finish().unwrap().into_inner();
    let mut patched = 0;
    for at in 0..bytes.len() - placeholder.len() + 1 {
        if bytes[at..at + placeholder.len()] == placeholder {
            bytes[at] = AES_FIELD[0];
            patched += 1;
        }
    }
    assert_eq!(patched, 2);
    bytes
}

/// A package whose entries are all marked as encrypted, though they are not.
fn package_marked_as_encrypted(parts: &[(&str, &[u8])]) -> Vec<u8> {
    let mut bytes = package(parts);
    for at in 0..bytes.len() - 10 {
        if bytes[at..at + 4] == [0x50, 0x4B, 0x03, 0x04] {
            bytes[at + 6] |= 1;
        }
        if bytes[at..at + 4] == [0x50, 0x4B, 0x01, 0x02] {
            bytes[at + 8] |= 1;
        }
    }
    bytes
}

#[test]
fn an_entry_with_unmarked_aes_data_counts_as_missing() {
    let bytes = package_with_unmarked_aes_entry(
        "xl/styles.xml",
        STYLES.as_bytes(),
        &[("xl/worksheets/sheet1.xml", SHEET.as_bytes())],
    );
    let mut opened = Package::open(bytes.clone()).unwrap();
    assert!(matches!(opened.read_part("xl/styles.xml"), PartText::Missing(_)));
    match opened.read_part("xl/worksheets/sheet1.xml") {
        PartText::Text(text) => assert_eq!(text, SHEET),
        other => panic!("expected text, got {:?}", other),
    }
    let metadata = parse_sheet_metadata(bytes, &TextMap::new()).unwrap();
    assert_eq!(metadata.cell_formulas.len(), 3);
    assert!(metadata.cell_styles.is_empty());
}

#[test]
fn a_picture_with_unmarked_aes_data_is_passed_over() {
    let webp: &[u8] = &[b'R', b'I', b'F', b'F', 4, 0, 0, 0, b'W', b'E', b'B', b'P'];
    let bytes = package_with_unmarked_aes_entry(
        "xl/media/image1.webp",
        webp,
        &[("xl/media/image2.png", PNG), ("xl/worksheets/sheet1.xml", SHEET.as_bytes())],
    );
    let mut opened = Package::open(bytes.clone()).unwrap();
    assert!(opened.conversion_candidates().is_empty());
    let media = opened.read_media_files(&TextMap::new());
    assert!(media.files.get("image1.webp").is_none());
    assert_eq!(media.files.get("image2.png").unwrap().data, PNG);
    assert!(media.converted.is_empty());
    assert!(media.unsupported.is_empty());
    assert!(parse_sheet_metadata(bytes, &TextMap::new()).is_ok());
}

#[test]
fn a_worksheet_with_unmarked_aes_data_is_a_file_error() {
    let bytes = package_with_unmarked_aes_entry(
        "xl/worksheets/sheet1.xml",
        SHEET.as_bytes(),
        &[("xl/styles.xml", STYLES.as_bytes())],
    );
    let error = parse_sheet_metadata(bytes.clone(), &TextMap::new()).unwrap_err();
    assert_eq!(error.code, "FILE_ERROR");
    assert!(error.message.starts_with("找不到工作表 XML: "));
    assert_eq!(parse_merged_cells(bytes).unwrap_err().code, "FILE_ERROR");
}

#[test]
fn entries_marked_as_encrypted_are_not_read() {
    let bytes = package_marked_as_encrypted(&[
        ("xl/worksheets/sheet1.xml", SHEET.as_bytes()),
        ("xl/media/image1.png", PNG),
    ]);
    let mut opened = Package::open(bytes.clone()).unwrap();
    assert!(!matches!(opened.read_part("xl/worksheets/sheet1.xml"), PartText::Text(_)));
    assert!(opened.conversion_candidates().is_empty());
    let media = opened.read_media_files(&TextMap::new());
    assert!(media.files.is_empty());
    assert_eq!(parse_sheet_metadata(bytes, &TextMap::new()).unwrap_err().code, "FILE_ERROR");
}

#[test]
fn empty_optional_parts_say_nothing() {
    let bytes = package(&[
        ("xl/worksheets/sheet1.xml", SHEET.as_bytes()),
        ("xl/cellimages.xml", b""),
        ("xl/_rels/cellimages.xml.rels", b""),
        ("xl/drawings/drawing1.xml", b""),
        ("xl/drawings/_rels/drawing1.xml.rels", b""),
    ]);
    let mut opened = Package::open(bytes.clone()).unwrap();
    let links = read_picture_links(&mut opened).unwrap();
    assert!(links.cell_ids.is_empty());
    assert!(links.cell_files.is_empty());
    assert!(links.drawing_ids.is_empty());
    assert!(links.floating.is_empty());
    assert!(links.drawing_files.is_empty());
    let metadata = parse_sheet_metadata(bytes, &TextMap::new()).unwrap();
    assert!(metadata.cell_images.is_empty());
    assert_eq!(metadata.cell_formulas.len(), 3);
}

#[test]
fn missing_optional_parts_say_nothing() {
    let bytes = package(&[("xl/worksheets/sheet1.xml", SHEET.as_bytes())]);
    let mut opened = Package::open(bytes).unwrap();
    let links = read_picture_links(&mut opened).unwrap();
    assert!(links.cell_ids.is_empty());
    assert!(links.cell_files.is_empty());
    assert!(links.drawing_ids.is_empty());
    assert!(links.floating.is_empty());
    assert!(links.drawing_files.is_empty());
    assert!(parse_cellimages_rels(&mut opened).unwrap().is_empty());
    assert!(parse_drawing_rels(&mut opened).unwrap().is_empty());
    assert!(opened.read_media_files(&TextMap::new()).files.is_empty());
}
