use liao_tools::commands::excel::styles::{parse_styles_xml, StylesInfo};
use liao_tools::commands::excel::worksheet::{
    key_of, metadata_from_events, parse_metadata_from_xml, SheetMetadata,
};
use liao_tools::commands::excel::xml::{XmlAttribute, XmlElement, XmlEvent};

const STYLES: &str = r#"<styleSheet>
  <fills>
    <fill><patternFill patternType="none"/></fill>
    <fill><patternFill patternType="solid"><fgColor rgb="FF00FF00"/></patternFill></fill>
  </fills>
  <cellXfs>
    <xf numFmtId="0" fillId="0"/>
    <xf numFmtId="2" fillId="1"/>
    <xf numFmtId="77" fillId="0"/>
  </cellXfs>
</styleSheet>"#;

const SHEET: &str = r#"<?xml version="1.0" encoding="UTF-8"?>
<worksheet>
  <sheetFormatPr defaultRowHeight="15" defaultColWidth="10.5"/>
  <cols>
    <col min="1" max="2" width="12.25" customWidth="1"/>
    <col min="4" max="4" width="30"/>
    <col min="6" max="6" width="wide"/>
  </cols>
  <sheetData>
    <row r="1">
      <c r="A1" s="1" t="s"><v>0</v></c>
      <c r="B1" s="2"/>
      <c r="C1" s="0"><f>SUM(A2:A3)</f><v>5</v></c>
      <c r="D1"><f>_xlfn.DISPIMG(&quot;ID_ABC&quot;,1)</f><v>x</v></c>
      <c r="E1" s="1"/>
      <c s="1"><f>A1</f></c>
      <c r="?" s="1"><f>B1</f></c>
    </row>
  </sheetData>
  <mergeCells count="2">
    <mergeCell ref="A5:A7"/>
    <mergeCell ref="bogus"/>
    <mergeCell ref="C5:M5"></mergeCell>
  </mergeCells>
</worksheet>"#;

fn parsed() -> SheetMetadata {
    let styles = parse_styles_xml(STYLES).unwrap();
    parse_metadata_from_xml(SHEET, &styles).unwrap()
}

#[test]
fn merged_regions_are_read_in_order() {
    let metadata = parsed();
    let corners: Vec<(u32, u32, u32, u32)> = metadata
        .merged_ranges
        .iter()
        .map(|r| (r.start_row, r.start_col, r.end_row, r.end_col))
        .collect();
    assert_eq!(corners, vec![(4, 0, 6, 0), (4, 2, 4, 12)]);
}

#[test]
fn column_widths_are_kept_as_written() {
    let metadata = parsed();
    assert_eq!(metadata.default_column_width, "10.5");
    assert_eq!(metadata.column_widths.get(&0).map(String::as_str), Some("12.25"));
    assert_eq!(metadata.column_widths.get(&1).map(String::as_str), Some("12.25"));
    assert_eq!(metadata.column_widths.get(&2), None);
    assert_eq!(metadata.column_widths.get(&3).map(String::as_str), Some("30"));
    assert_eq!(metadata.column_widths.get(&5), None);
    assert_eq!(metadata.column_widths.len(), 3);
}

#[test]
fn default_width_falls_back_to_the_usual_one() {
    let metadata = parse_metadata_from_xml("<worksheet/>", &StylesInfo::empty()).unwrap();
    assert_eq!(metadata.default_column_width, "8.43");
    let metadata = parse_metadata_from_xml(
        "<worksheet><sheetFormatPr defaultColWidth=\"auto\"/></worksheet>",
        &StylesInfo::empty(),
    )
    .unwrap();
    assert_eq!(metadata.default_column_width, "8.43");
}

#[test]
fn only_styles_that_depart_from_the_default_are_recorded() {
    let metadata = parsed();
    let a1 = metadata.cell_styles.get(&key_of(0, 0)).unwrap();
    assert_eq!(a1.number_format.as_deref(), Some("0.00"));
    assert_eq!(a1.background_color.as_deref(), Some("00FF00"));
    assert!(metadata.cell_styles.get(&key_of(0, 1)).is_none());
    assert!(metadata.cell_styles.get(&key_of(0, 2)).is_none());
    assert!(metadata.cell_styles.get(&key_of(0, 3)).is_none());
    assert!(metadata.cell_styles.get(&key_of(0, 4)).is_some());
    assert_eq!(metadata.cell_styles.len(), 2);
}

#[test]
fn a_cell_in_the_default_style_is_not_recorded() {
    let styles = parse_styles_xml(
        r#"<styleSheet><fills><fill><patternFill patternType="none"/></fill><fill><patternFill patternType="solid"><fgColor rgb="FFFF0000"/></patternFill></fill></fills><cellXfs><xf numFmtId="0" fillId="0"/><xf numFmtId="0" fillId="1"/></cellXfs></styleSheet>"#,
    )
    .unwrap();
    let metadata = parse_metadata_from_xml(
        r#"<worksheet><sheetData><row r="1"><c r="A1" s="0"><v>1</v></c><c r="B1" s="1"><v>2</v></c><c r="C1" s="0"/></row></sheetData></worksheet>"#,
        &styles,
    )
    .unwrap();
    assert_eq!(metadata.cell_styles.len(), 1);
    let colored = metadata.cell_styles.get(&key_of(0, 1)).unwrap();
    assert_eq!(colored.number_format.as_deref(), Some("General"));
    assert_eq!(colored.background_color.as_deref(), Some("FF0000"));
}

#[test]
fn formulas_get_their_leading_equals_sign() {
    let metadata = parsed();
    assert_eq!(
        metadata.cell_formulas.get(&key_of(0, 2)).map(String::as_str),
        Some("=SUM(A2:A3)")
    );
    assert_eq!(
        metadata.cell_formulas.get(&key_of(0, 3)).map(String::as_str),
        Some("=_xlfn.DISPIMG(\"ID_ABC\",1)")
    );
    assert_eq!(metadata.cell_formulas.len(), 2);
    assert_eq!(metadata.formula_cells, vec![(0, 2), (0, 3)]);
}

#[test]
fn a_malformed_sheet_is_a_parse_error() {
    let error = parse_metadata_from_xml("<worksheet><sheetData></worksheet>", &StylesInfo::empty())
        .unwrap_err();
    assert_eq!(error.code, "PARSE_ERROR");
    assert!(error.message.starts_with("XML 解析错误: "));
}

fn tag(name: &str, attributes: &[(&str, &str)]) -> XmlElement {
    XmlElement {
        name: name.to_string(),
        attributes: attributes
            .iter()
            .map(|(k, v)| XmlAttribute { key: k.to_string(), value: v.to_string() })
            .collect(),
    }
}

#[test]
fn facts_are_gathered_from_events() {
    let events = vec![
        XmlEvent::Empty(tag("mergeCell", &[("ref", "A1:B2")])),
        XmlEvent::Start(tag("mergeCells", &[])),
        XmlEvent::Empty(tag("mergeCell", &[("ref", "C1:D2")])),
        XmlEvent::Start(tag("mergeCell", &[("ref", "E1:F2")])),
        XmlEvent::End("mergeCells".to_string()),
        XmlEvent::Empty(tag("col", &[("min", "1"), ("max", "1"), ("width", "5")])),
        XmlEvent::Start(tag("cols", &[])),
        XmlEvent::Empty(tag("col", &[("min", "0"), ("max", "2"), ("width", "1e1")])),
        XmlEvent::Empty(tag("col", &[("min", "9"), ("max", "8"), ("width", "7")])),
        XmlEvent::End("cols".to_string()),
        XmlEvent::Start(tag("c", &[("r", "A1")])),
        XmlEvent::Start(tag("sheetData", &[])),
        XmlEvent::Start(tag("c", &[("r", "B3")])),
        XmlEvent::Start(tag("f", &[])),
        XmlEvent::Text(Some("A1+1".to_string())),
        XmlEvent::End("f".to_string()),
        XmlEvent::End("c".to_string()),
        XmlEvent::Start(tag("c", &[("r", "B4")])),
        XmlEvent::Start(tag("f", &[])),
        XmlEvent::Text(None),
        XmlEvent::End("f".to_string()),
        XmlEvent::End("c".to_string()),
        XmlEvent::Start(tag("c", &[("r", "B5")])),
        XmlEvent::Text(Some("not a formula".to_string())),
        XmlEvent::End("c".to_string()),
        XmlEvent::Eof,
        XmlEvent::Empty(tag("col", &[("min", "5"), ("max", "5"), ("width", "9")])),
    ];
    let metadata = metadata_from_events(&events, &StylesInfo::empty()).unwrap();
    assert_eq!(metadata.merged_ranges.len(), 2);
    assert_eq!(metadata.merged_ranges[0].start_col, 2);
    assert_eq!(metadata.merged_ranges[1].start_col, 4);
    assert_eq!(metadata.column_widths.len(), 2);
    assert_eq!(metadata.column_widths.get(&0).map(String::as_str), Some("1e1"));
    assert_eq!(metadata.column_widths.get(&1).map(String::as_str), Some("1e1"));
    assert_eq!(metadata.cell_formulas.len(), 1);
    assert_eq!(metadata.cell_formulas.get(&key_of(2, 1)).map(String::as_str), Some("=A1+1"));
}

#[test]
fn a_failure_among_sheet_events_is_reported_with_its_words() {
    let events = vec![XmlEvent::Failed("no good".to_string())];
    let error = metadata_from_events(&events, &StylesInfo::empty()).unwrap_err();
    assert_eq!(error.code, "PARSE_ERROR");
    assert_eq!(error.message, "XML 解析错误: no good");
}
