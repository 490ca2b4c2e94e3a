use liao_tools::commands::excel::drawings::FloatingImageInfo;
use liao_tools::commands::excel::images::{
    extract_dispimg_id, link_floating_images, link_images_to_cells, resolve_formula_image,
};
use liao_tools::commands::excel::media::{MediaFile, MediaFiles};
use liao_tools::commands::excel::merge_parser::assemble_metadata;
use liao_tools::commands::excel::worksheet::{key_of, EmbeddedImage, SheetMetadata};
use liao_tools::text_map::TextMap;
use std::collections::HashMap;

const PNG: &[u8] = &[0x89, 0x50, 0x4E, 0x47, 0x0D, 0x0A, 0x1A, 0x0A, 1];
const GIF: &[u8] = b"GIF89a\x01\x00\x01";

fn links(pairs: &[(&str, &str)]) -> TextMap<String> {
    let mut map = TextMap::new();
    for (k, v) in pairs {
        map.insert(k.to_string(), v.to_string());
    }
    map
}

fn pictures(files: &[(&str, &[u8], &str)]) -> TextMap<MediaFile> {
    let mut map = TextMap::new();
    for (name, data, extension) in files {
        map.insert(
            name.to_string(),
            MediaFile { data: data.to_vec(), extension: extension.to_string() },
        );
    }
    map
}

#[test]
fn picture_id_stands_between_the_quotes() {
    assert_eq!(
        extract_dispimg_id("=DISPIMG(\"ID_ACFEA68153BF450AAF4F180501501BB8\",1)").as_deref(),
        Some("ID_ACFEA68153BF450AAF4F180501501BB8")
    );
    assert_eq!(extract_dispimg_id("=_xlfn.DISPIMG(\"x\",1)+DISPIMG(\"y\",1)").as_deref(), Some("x"));
    assert_eq!(extract_dispimg_id("=DISPIMG(\"\",1)").as_deref(), Some(""));
    assert_eq!(extract_dispimg_id("=DISPIMG(\"open"), None);
    assert_eq!(extract_dispimg_id("=DISPIMG(A1)"), None);
    assert_eq!(extract_dispimg_id("=SUM(\"x\")"), None);
    assert_eq!(extract_dispimg_id(""), None);
}

#[test]
fn a_formula_resolves_through_every_link() {
    let ids = links(&[("ID_1", "rId1"), ("ID_2", "rId2"), ("ID_3", "rId3"), ("ID_4", "rId4")]);
    let files = links(&[("rId1", "a.png"), ("rId2", "gone.png"), ("rId4", "tiny.png")]);
    let media = pictures(&[("a.png", PNG, "png"), ("tiny.png", &PNG[..7], "png")]);

    let image = resolve_formula_image("=DISPIMG(\"ID_1\",1)", &ids, &files, &media).unwrap();
    assert_eq!(image.image_id, "ID_1");
    assert_eq!(image.data, PNG);
    assert_eq!(image.extension, "png");

    assert!(resolve_formula_image("=DISPIMG(\"ID_0\",1)", &ids, &files, &media).is_none());
    assert!(resolve_formula_image("=DISPIMG(\"ID_2\",1)", &ids, &files, &media).is_none());
    assert!(resolve_formula_image("=DISPIMG(\"ID_3\",1)", &ids, &files, &media).is_none());
    assert!(resolve_formula_image("=DISPIMG(\"ID_4\",1)", &ids, &files, &media).is_none());
    assert!(resolve_formula_image("=SUM(A1)", &ids, &files, &media).is_none());
}

#[test]
fn formulas_that_show_pictures_get_them() {
    let ids = links(&[("ID_1", "rId1")]);
    let files = links(&[("rId1", "a.png")]);
    let media = pictures(&[("a.png", PNG, "png")]);
    let mut formulas: HashMap<u64, String> = HashMap::new();
    formulas.insert(key_of(0, 0), "=DISPIMG(\"ID_1\",1)".to_string());
    formulas.insert(key_of(1, 0), "=DISPIMG(\"ID_9\",1)".to_string());
    formulas.insert(key_of(2, 0), "=A1".to_string());
    let cells = vec![(0, 0), (1, 0), (2, 0), (0, 0)];
    let mut images: HashMap<u64, EmbeddedImage> = HashMap::new();
    images.insert(
        key_of(1, 0),
        EmbeddedImage { image_id: "old".to_string(), data: GIF.to_vec(), extension: "gif".to_string() },
    );
    link_images_to_cells(&mut images, &formulas, &cells, &media, &ids, &files);
    assert_eq!(images.len(), 2);
    assert_eq!(images.get(&key_of(0, 0)).unwrap().image_id, "ID_1");
    assert_eq!(images.get(&key_of(1, 0)).unwrap().image_id, "old");
}

#[test]
fn anchored_pictures_fill_free_cells_in_order() {
    let files = links(&[("rId1", "a.png"), ("rId2", "b.gif"), ("rId3", "none.gif")]);
    let media = pictures(&[("a.png", PNG, "png"), ("b.gif", GIF, "gif")]);
    let floating = vec![
        FloatingImageInfo { row: 4, col: 1, rid: "rId1".to_string() },
        FloatingImageInfo { row: 4, col: 1, rid: "rId2".to_string() },
        FloatingImageInfo { row: 5, col: 1, rid: "rId3".to_string() },
        FloatingImageInfo { row: 6, col: 1, rid: "rId2".to_string() },
    ];
    let mut images: HashMap<u64, EmbeddedImage> = HashMap::new();
    link_floating_images(&mut images, &media, &floating, &files);
    assert_eq!(images.len(), 2);
    let first = images.get(&key_of(4, 1)).unwrap();
    assert_eq!(first.image_id, "floating_4_1_rId1");
    assert_eq!(first.data, PNG);
    let second = images.get(&key_of(6, 1)).unwrap();
    assert_eq!(second.image_id, "floating_6_1_rId2");
    assert_eq!(second.extension, "gif");
}

#[test]
fn a_formula_picture_wins_over_an_anchored_one() {
    let mut metadata = SheetMetadata::blank();
    metadata.cell_formulas.insert(key_of(3, 2), "=DISPIMG(\"ID_1\",1)".to_string());
    metadata.formula_cells.push((3, 2));
    let mut media = MediaFiles::new();
    media.note("xl/media/a.png", Some(PNG.to_vec()), None);
    media.note("xl/media/b.gif", Some(GIF.to_vec()), None);
    media.note("xl/media/c.svg", Some(b"<svg></svg>".to_vec()), None);
    let whole = assemble_metadata(
        metadata,
        media,
        links(&[("ID_1", "rId1")]),
        links(&[("rId1", "a.png")]),
        links(&[("ID_1", "rId7")]),
        vec![
            FloatingImageInfo { row: 3, col: 2, rid: "rId7".to_string() },
            FloatingImageInfo { row: 3, col: 3, rid: "rId7".to_string() },
        ],
        links(&[("rId7", "b.gif")]),
    );
    let shown = whole.cell_images.get(&key_of(3, 2)).unwrap();
    assert_eq!(shown.image_id, "ID_1");
    assert_eq!(shown.data, PNG);
    let anchored = whole.cell_images.get(&key_of(3, 3)).unwrap();
    assert_eq!(anchored.image_id, "floating_3_3_rId7");
    assert_eq!(anchored.data, GIF);
    assert_eq!(whole.unsupported_images, vec!["c.svg".to_string()]);
    assert!(whole.converted_images.is_empty());
}

#[test]
fn the_cell_image_links_are_preferred_one_by_one() {
    let mut metadata = SheetMetadata::blank();
    metadata.cell_formulas.insert(key_of(0, 0), "=DISPIMG(\"ID_1\",1)".to_string());
    metadata.formula_cells.push((0, 0));
    let mut media = MediaFiles::new();
    media.note("xl/media/b.gif", Some(GIF.to_vec()), None);
    let whole = assemble_metadata(
        metadata,
        media,
        links(&[("ID_1", "rId7")]),
        links(&[]),
        links(&[("ID_1", "rId0")]),
        Vec::new(),
        links(&[("rId7", "b.gif")]),
    );
    assert_eq!(whole.cell_images.get(&key_of(0, 0)).unwrap().data, GIF);
}
