use liao_tools::commands::excel::drawings::{
    cell_images_from_events, drawing_from_events, parse_cell_images_xml, parse_drawing_xml,
};
use liao_tools::commands::excel::relationships::{
    file_name_of, parse_relationships, relationships_from_events,
};
use liao_tools::commands::excel::xml::{XmlAttribute, XmlElement, XmlEvent};

const CELL_IMAGES: &str = r#"<etc:cellImages xmlns:etc="e" xmlns:xdr="x" xmlns:a="a" xmlns:r="r">
  <etc:cellImage>
    <xdr:pic>
      <xdr:nvPicPr><xdr:cNvPr id="2" name="ID_AAA" descr="one"/></xdr:nvPicPr>
      <xdr:blipFill><a:blip r:embed="rId1"/></xdr:blipFill>
    </xdr:pic>
  </etc:cellImage>
  <etc:cellImage>
    <xdr:pic>
      <xdr:nvPicPr><xdr:cNvPr id="3" name="ID_BBB"/></xdr:nvPicPr>
    </xdr:pic>
  </etc:cellImage>
  <xdr:cNvPr name="ID_OUTSIDE"/>
  <a:blip r:embed="rId9"/>
  <etc:cellImage>
    <xdr:pic>
      <xdr:nvPicPr><xdr:cNvPr id="4" name="ID_CCC"/></xdr:nvPicPr>
      <xdr:blipFill><a:blip r:embed="rId3"/></xdr:blipFill>
    </xdr:pic>
  </etc:cellImage>
</etc:cellImages>"#;

#[test]
fn cell_image_list_maps_ids_to_relationships() {
    let ids = parse_cell_images_xml(CELL_IMAGES).unwrap();
    assert_eq!(ids.get("ID_AAA").map(String::as_str), Some("rId1"));
    assert_eq!(ids.get("ID_BBB"), None);
    assert_eq!(ids.get("ID_OUTSIDE"), None);
    assert_eq!(ids.get("ID_CCC").map(String::as_str), Some("rId3"));
    assert!(!ids.is_empty());
    assert!(parse_cell_images_xml("").unwrap().is_empty());
}

#[test]
fn a_broken_cell_image_list_is_a_parse_error() {
    let broken = format!("{}</oops>", &CELL_IMAGES[..CELL_IMAGES.find("<xdr:cNvPr name").unwrap()]);
    let error = parse_cell_images_xml(&broken).unwrap_err();
    assert_eq!(error.code, "PARSE_ERROR");
    assert!(error.message.starts_with("XML 解析错误: "));
    assert!(error.message.len() > "XML 解析错误: ".len());
}

const DRAWING: &str = r#"<xdr:wsDr xmlns:xdr="x" xmlns:a="a" xmlns:r="r">
  <xdr:twoCellAnchor>
    <xdr:from><xdr:col>3</xdr:col><xdr:colOff>0</xdr:colOff><xdr:row>5</xdr:row><xdr:rowOff>0</xdr:rowOff></xdr:from>
    <xdr:to><xdr:col>4</xdr:col><xdr:row>6</xdr:row></xdr:to>
    <xdr:pic>
      <xdr:nvPicPr><xdr:cNvPr id="2" name="Picture 1"/></xdr:nvPicPr>
      <xdr:blipFill><a:blip r:embed="rId1"/></xdr:blipFill>
    </xdr:pic>
  </xdr:twoCellAnchor>
  <xdr:oneCellAnchor>
    <xdr:from><xdr:col>0</xdr:col><xdr:row>2</xdr:row></xdr:from>
    <xdr:pic>
      <xdr:nvPicPr><xdr:cNvPr id="3" name="ID_FROM_DRAWING"/></xdr:nvPicPr>
      <xdr:blipFill><a:blip r:embed="rId2"/></xdr:blipFill>
    </xdr:pic>
  </xdr:oneCellAnchor>
  <xdr:twoCellAnchor>
    <xdr:from><xdr:col>x</xdr:col><xdr:row>9</xdr:row></xdr:from>
    <xdr:pic>
      <xdr:nvPicPr><xdr:cNvPr id="4" name="ID_NO_PLACE"/></xdr:nvPicPr>
      <xdr:blipFill><a:blip r:embed="rId3"/></xdr:blipFill>
    </xdr:pic>
  </xdr:twoCellAnchor>
</xdr:wsDr>"#;

#[test]
fn drawing_gives_anchored_pictures_and_formula_ids() {
    let (ids, floating) = parse_drawing_xml(DRAWING).unwrap();
    let places: Vec<(u32, u32, &str)> =
        floating.iter().map(|f| (f.row, f.col, f.rid.as_str())).collect();
    assert_eq!(places, vec![(5, 3, "rId1"), (2, 0, "rId2")]);
    assert_eq!(ids.get("Picture 1"), None);
    assert_eq!(ids.get("ID_FROM_DRAWING").map(String::as_str), Some("rId2"));
    assert_eq!(ids.get("ID_NO_PLACE").map(String::as_str), Some("rId3"));
}

#[test]
fn a_drawing_with_malformed_text_is_a_parse_error() {
    let end = DRAWING.find("<xdr:oneCellAnchor>").unwrap();
    let broken = format!("{}</xdr:pic>", &DRAWING[..end]);
    let error = parse_drawing_xml(&broken).unwrap_err();
    assert_eq!(error.code, "PARSE_ERROR");
    assert!(error.message.starts_with("XML 解析错误: "));
    let error = parse_relationships("<Relationships><Relationship Id=\"a\" Target=\"b\"/></Other>")
        .unwrap_err();
    assert_eq!(error.code, "PARSE_ERROR");
}

#[test]
fn an_empty_drawing_gives_nothing() {
    let (ids, floating) = parse_drawing_xml("").unwrap();
    assert!(ids.is_empty());
    assert!(floating.is_empty());
}

#[test]
fn empty_text_declares_nothing() {
    assert!(parse_cell_images_xml("").unwrap().is_empty());
    assert!(parse_relationships("").unwrap().is_empty());
}

#[test]
fn white_space_alone_declares_nothing() {
    assert!(parse_cell_images_xml(" \n ").unwrap().is_empty());
    assert!(parse_relationships(" \n ").unwrap().is_empty());
    let (ids, floating) = parse_drawing_xml(" \n ").unwrap();
    assert!(ids.is_empty());
    assert!(floating.is_empty());
}

const RELS: &str = r#"<?xml version="1.0" encoding="UTF-8" standalone="yes"?>
<Relationships xmlns="http://schemas.openxmlformats.org/package/2006/relationships">
  <Relationship Id="rId1" Type="image" Target="media/image1.png"/>
  <Relationship Id="rId2" Type="image" Target="../media/image2.jpeg"></Relationship>
  <Relationship Id="rId3" Type="image"/>
  <Relationship Id="rId4" Target="plain.gif"/>
  <Relationship Id="rId5" Target="folder/"/>
  <Other Id="rId6" Target="media/image6.png"/>
</Relationships>"#;

#[test]
fn relationships_map_ids_to_file_names() {
    let targets = parse_relationships(RELS).unwrap();
    assert_eq!(targets.get("rId1").map(String::as_str), Some("image1.png"));
    assert_eq!(targets.get("rId2").map(String::as_str), Some("image2.jpeg"));
    assert_eq!(targets.get("rId3"), None);
    assert_eq!(targets.get("rId4").map(String::as_str), Some("plain.gif"));
    assert_eq!(targets.get("rId5").map(String::as_str), Some(""));
    assert_eq!(targets.get("rId6"), None);
}

#[test]
fn file_name_is_the_last_segment() {
    assert_eq!(file_name_of("a/b/c.png"), "c.png");
    assert_eq!(file_name_of("c.png"), "c.png");
    assert_eq!(file_name_of("a/"), "");
    assert_eq!(file_name_of(""), "");
    assert_eq!(file_name_of("/"), "");
}

fn tag(name: &str, attributes: &[(&str, &str)]) -> XmlElement {
    XmlElement {
        name: name.to_string(),
        attributes: attributes
            .iter()
            .map(|(k, v)| XmlAttribute { key: k.to_string(), value: v.to_string() })
            .collect(),
    }
}

#[test]
fn later_relationships_replace_earlier_ones() {
    let mut events = vec![
        XmlEvent::Empty(tag("Relationship", &[("Id", "a"), ("Target", "x/1.png")])),
        XmlEvent::Start(tag("p:Relationship", &[("q:Id", "a"), ("Target", "2.png")])),
        XmlEvent::Eof,
        XmlEvent::Empty(tag("Relationship", &[("Id", "a"), ("Target", "3.png")])),
        XmlEvent::Failed("too late to matter".to_string()),
    ];
    let targets = relationships_from_events(&events).unwrap();
    assert_eq!(targets.get("a").map(String::as_str), Some("2.png"));
    events[2] = XmlEvent::Failed("stop".to_string());
    let error = relationships_from_events(&events).unwrap_err();
    assert_eq!((error.code.as_str(), error.message.as_str()), ("PARSE_ERROR", "XML 解析错误: stop"));
}

#[test]
fn a_cell_image_needs_both_its_name_and_its_relationship() {
    let events = vec![
        XmlEvent::Start(tag("cellImage", &[])),
        XmlEvent::Empty(tag("cNvPr", &[("name", "first")])),
        XmlEvent::Empty(tag("cNvPr", &[("name", "second")])),
        XmlEvent::Empty(tag("cNvPr", &[("id", "7")])),
        XmlEvent::Empty(tag("blip", &[("embed", "r1")])),
        XmlEvent::End("cellImage".to_string()),
        XmlEvent::Empty(tag("blip", &[("embed", "r2")])),
        XmlEvent::End("cellImage".to_string()),
        XmlEvent::Start(tag("cellImage", &[])),
        XmlEvent::Empty(tag("cNvPr", &[("name", "third")])),
        XmlEvent::Start(tag("cellImage", &[])),
        XmlEvent::Empty(tag("blip", &[("embed", "r3")])),
        XmlEvent::End("cellImage".to_string()),
    ];
    let ids = cell_images_from_events(&events).unwrap();
    assert_eq!(ids.get("second").map(String::as_str), Some("r1"));
    assert_eq!(ids.get("first"), None);
    assert_eq!(ids.get("third"), None);
    assert_eq!(ids.entries.len(), 1);
    let mut failing = events;
    failing.push(XmlEvent::Failed("cut short".to_string()));
    let error = cell_images_from_events(&failing).unwrap_err();
    assert_eq!((error.code.as_str(), error.message.as_str()), ("PARSE_ERROR", "XML 解析错误: cut short"));
}

#[test]
fn an_anchor_needs_its_corner_inside_from() {
    let events = vec![
        XmlEvent::Start(tag("oneCellAnchor", &[])),
        XmlEvent::Start(tag("row", &[])),
        XmlEvent::Text(Some("1".to_string())),
        XmlEvent::End("row".to_string()),
        XmlEvent::Start(tag("from", &[])),
        XmlEvent::Start(tag("col", &[])),
        XmlEvent::Text(Some("4".to_string())),
        XmlEvent::End("col".to_string()),
        XmlEvent::Start(tag("row", &[])),
        XmlEvent::Text(None),
        XmlEvent::Text(Some("7".to_string())),
        XmlEvent::End("row".to_string()),
        XmlEvent::End("from".to_string()),
        XmlEvent::Empty(tag("blip", &[("embed", "early")])),
        XmlEvent::Start(tag("pic", &[])),
        XmlEvent::Empty(tag("cNvPr", &[("name", "ID_1")])),
        XmlEvent::Empty(tag("blip", &[("r:embed", "rId7")])),
        XmlEvent::End("pic".to_string()),
        XmlEvent::End("oneCellAnchor".to_string()),
        XmlEvent::Start(tag("twoCellAnchor", &[])),
        XmlEvent::Start(tag("pic", &[])),
        XmlEvent::Empty(tag("blip", &[("embed", "rId8")])),
        XmlEvent::End("twoCellAnchor".to_string()),
    ];
    let (ids, floating) = drawing_from_events(&events).unwrap();
    let places: Vec<(u32, u32, &str)> =
        floating.iter().map(|f| (f.row, f.col, f.rid.as_str())).collect();
    assert_eq!(places, vec![(7, 4, "rId7")]);
    assert_eq!(ids.get("ID_1").map(String::as_str), Some("rId7"));
    assert_eq!(ids.entries.len(), 1);
    let mut failing = events;
    failing.push(XmlEvent::Failed("cut short".to_string()));
    let error = drawing_from_events(&failing).unwrap_err();
    assert_eq!((error.code.as_str(), error.message.as_str()), ("PARSE_ERROR", "XML 解析错误: cut short"));
}
