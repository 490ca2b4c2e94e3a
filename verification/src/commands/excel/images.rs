//! From picture references to pictures: formulas that show a picture by id,
//! and pictures anchored over the grid.

use crate::commands::excel::drawings::{floating_model, FloatingImageInfo, FloatingModel};
use crate::commands::excel::media::{file_values, FileModel, MediaFile};
use crate::commands::excel::worksheet::{
    cell_key, image_values, key_of, lemma_image_values_insert, lists_every_formula,
    EmbeddedImage, ImageModel,
};
use crate::numeric::{decimal_text, u64_to_text};
use crate::text::{chars_of, contains_text, has_text, index_of, index_of_text, string_of_range};
use crate::text_map::{string_values, text_values, TextMap};
use std::collections::HashMap;
use vstd::prelude::*;

verus! {

broadcast use vstd::std_specs::hash::group_hash_axioms;

/// The picture id inside a picture-display formula: what stands between
/// the first `DISPIMG("` and the next double quote.
pub open spec fn dispimg_id(formula: Seq<char>) -> Option<Seq<char>> {
    match index_of_text(formula, "DISPIMG(\""@) {
        Some(start) => {
            let rest = formula.skip(start + "DISPIMG(\""@.len());
            match index_of_text(rest, "\""@) {
                Some(end) => Some(rest.take(end)),
                None => None,
            }
        },
        None => None,
    }
}

/// Takes the picture id out of a picture-display formula such as
/// `=DISPIMG("ID_0123",1)`.
pub fn extract_dispimg_id(formula: &str) -> (id: Option<String>)
    ensures
        match id {
            Some(text) => dispimg_id(formula@) == Some(text@),
            None => dispimg_id(formula@) is None,
        },
{
    let chars = chars_of(formula);
    let opener = chars_of("DISPIMG(\"");
    let quote = chars_of("\"");
    match index_of(&chars, &opener) {
        Some(start) => {
            assert(start + opener@.len() <= chars.len());
            let from = start + opener.len();
            let mut rest: Vec<char> = Vec::new();
            let mut i: usize = from;
            while i < chars.len()
                invariant
                    from <= i <= chars@.len(),
                    rest@ == chars@.subrange(from as int, i as int),
                decreases chars@.len() - i,
            {
                rest.push(chars[i]);
                i += 1;
            }
            assert(rest@ == chars@.skip(from as int));
            match index_of(&rest, &quote) {
                Some(end) => {
                    let id = string_of_range(&rest, 0, end);
                    assert(rest@.subrange(0, end as int) == rest@.take(end as int));
                    Some(id)
                },
                None => None,
            }
        },
        None => None,
    }
}

/// The picture behind the relationship `rid`, under the id `id`: the file
/// that the relationship names, if it is among the pictures and holds at
/// least eight bytes.
pub open spec fn picture_of(
    id: Seq<char>,
    rid: Seq<char>,
    files: Map<Seq<char>, Seq<char>>,
    media: Map<Seq<char>, FileModel>,
) -> Option<ImageModel> {
    if files.contains_key(rid) && media.contains_key(files[rid]) && media[files[rid]].data.len()
        >= 8 {
        Some(
            ImageModel {
                image_id: id,
                data: media[files[rid]].data,
                extension: media[files[rid]].extension,
            },
        )
    } else {
        None
    }
}

/// The picture that a formula shows: the formula must mention `DISPIMG`
/// and carry a picture id, and every link from the id to a picture of at
/// least eight bytes must be there.
pub open spec fn formula_image(
    formula: Seq<char>,
    ids: Map<Seq<char>, Seq<char>>,
    files: Map<Seq<char>, Seq<char>>,
    media: Map<Seq<char>, FileModel>,
) -> Option<ImageModel> {
    if contains_text(formula, "DISPIMG"@) {
        match dispimg_id(formula) {
            Some(id) if ids.contains_key(id) => picture_of(id, ids[id], files, media),
            _ => None,
        }
    } else {
        None
    }
}

/// Finds the picture behind a relationship.
fn find_picture(id: String, rid: &str, files: &TextMap<String>, media: &TextMap<MediaFile>) -> (image:
    Option<EmbeddedImage>)
    ensures
        match image {
            Some(i) => picture_of(id@, rid@, text_values(files@), file_values(media@)) == Some(i@),
            None => picture_of(id@, rid@, text_values(files@), file_values(media@)) is None,
        },
{
    match files.get(rid) {
        Some(file) => match media.get(file.as_str()) {
            Some(picture) => {
                if picture.data.len() >= 8 {
                    Some(
                        EmbeddedImage {
                            image_id: id,
                            data: picture.data.clone(),
                            extension: picture.extension.clone(),
                        },
                    )
                } else {
                    None
                }
            },
            None => None,
        },
        None => None,
    }
}

/// Resolves the picture that a formula shows, by way of the picture id, the
/// relationship and the file name.
pub fn resolve_formula_image(
    formula: &str,
    id_to_rid: &TextMap<String>,
    rid_to_file: &TextMap<String>,
    media: &TextMap<MediaFile>,
) -> (image: Option<EmbeddedImage>)
    ensures
        match image {
            Some(i) => formula_image(
                formula@,
                text_values(id_to_rid@),
                text_values(rid_to_file@),
                file_values(media@),
            ) == Some(i@),
            None => formula_image(
                formula@,
                text_values(id_to_rid@),
                text_values(rid_to_file@),
                file_values(media@),
            ) is None,
        },
{
    if !has_text(formula, "DISPIMG") {
        return None;
    }
    match extract_dispimg_id(formula) {
        Some(id) => match id_to_rid.get(id.as_str()) {
            Some(rid) => find_picture(id, rid.as_str(), rid_to_file, media),
            None => None,
        },
        None => None,
    }
}

/// The cell under key `key` has a formula that shows a picture.
pub open spec fn shows_picture(
    formulas: Map<u64, Seq<char>>,
    key: u64,
    ids: Map<Seq<char>, Seq<char>>,
    files: Map<Seq<char>, Seq<char>>,
    media: Map<Seq<char>, FileModel>,
) -> bool {
    formulas.contains_key(key) && formula_image(formulas[key], ids, files, media) is Some
}

/// The cell pictures once every formula that shows a picture has been
/// followed: such a cell gets the picture its formula shows, and every
/// other cell keeps what it had.
pub open spec fn with_formula_images(
    images: Map<u64, ImageModel>,
    formulas: Map<u64, Seq<char>>,
    ids: Map<Seq<char>, Seq<char>>,
    files: Map<Seq<char>, Seq<char>>,
    media: Map<Seq<char>, FileModel>,
) -> Map<u64, ImageModel> {
    Map::new(
        |key: u64| images.contains_key(key) || shows_picture(formulas, key, ids, files, media),
        |key: u64|
            if shows_picture(formulas, key, ids, files, media) {
                formula_image(formulas[key], ids, files, media)->Some_0
            } else {
                images[key]
            },
    )
}

/// One of the first `upto` cells of `cells` is filed under `key`.
pub open spec fn listed_before(cells: Seq<(u32, u32)>, upto: int, key: u64) -> bool {
    exists|j: int| 0 <= j < upto && cell_key((#[trigger] cells[j]).0, cells[j].1) == key
}

/// Gives each cell whose formula shows a picture that picture.
pub fn link_images_to_cells(
    cell_images: &mut HashMap<u64, EmbeddedImage>,
    cell_formulas: &HashMap<u64, String>,
    formula_cells: &Vec<(u32, u32)>,
    media: &TextMap<MediaFile>,
    id_to_rid: &TextMap<String>,
    rid_to_file: &TextMap<String>,
)
    requires
        lists_every_formula(cell_formulas@, formula_cells@),
    ensures
        image_values(final(cell_images)@) == with_formula_images(
            image_values(old(cell_images)@),
            string_values(cell_formulas@),
            text_values(id_to_rid@),
            text_values(rid_to_file@),
            file_values(media@),
        ),
{
    let ghost before = image_values(cell_images@);
    let ghost formulas = string_values(cell_formulas@);
    let ghost ids = text_values(id_to_rid@);
    let ghost files = text_values(rid_to_file@);
    let ghost pictures = file_values(media@);
    let mut i: usize = 0;
    assert(image_values(cell_images@) =~= Map::new(
        |key: u64|
            before.contains_key(key) || (listed_before(formula_cells@, 0, key) && shows_picture(
                formulas,
                key,
                ids,
                files,
                pictures,
            )),
        |key: u64|
            if listed_before(formula_cells@, 0, key) && shows_picture(
                formulas,
                key,
                ids,
                files,
                pictures,
            ) {
                formula_image(formulas[key], ids, files, pictures)->Some_0
            } else {
                before[key]
            },
    ));
    while i < formula_cells.len()
        invariant
            i <= formula_cells@.len(),
            formulas == string_values(cell_formulas@),
            ids == text_values(id_to_rid@),
            files == text_values(rid_to_file@),
            pictures == file_values(media@),
            image_values(cell_images@) == Map::new(
                |key: u64|
                    before.contains_key(key) || (listed_before(formula_cells@, i as int, key)
                        && shows_picture(formulas, key, ids, files, pictures)),
                |key: u64|
                    if listed_before(formula_cells@, i as int, key) && shows_picture(
                        formulas,
                        key,
                        ids,
                        files,
                        pictures,
                    ) {
                        formula_image(formulas[key], ids, files, pictures)->Some_0
                    } else {
                        before[key]
                    },
            ),
        decreases formula_cells@.len() - i,
    {
        let cell = formula_cells[i];
        let key = key_of(cell.0, cell.1);
        let ghost prior = image_values(cell_images@);
        proof {
            assert forall|k: u64|
                listed_before(formula_cells@, i + 1, k) <==> (listed_before(
                    formula_cells@,
                    i as int,
                    k,
                ) || k == key) by {
                if listed_before(formula_cells@, i + 1, k) {
                    let j = choose|j: int|
                        0 <= j < i + 1 && cell_key(
                            (#[trigger] formula_cells@[j]).0,
                            formula_cells@[j].1,
                        ) == k;
                    if j < i {
                        assert(listed_before(formula_cells@, i as int, k));
                    }
                }
                if k == key {
                    assert(cell_key(formula_cells@[i as int].0, formula_cells@[i as int].1) == k);
                }
                if listed_before(formula_cells@, i as int, k) {
                    let j = choose|j: int|
                        0 <= j < i && cell_key(
                            (#[trigger] formula_cells@[j]).0,
                            formula_cells@[j].1,
                        ) == k;
                    assert(0 <= j < i + 1);
                }
            }
        }
        let found = match cell_formulas.get(&key) {
            Some(formula) => resolve_formula_image(formula.as_str(), id_to_rid, rid_to_file, media),
            None => None,
        };
        match found {
            Some(image) => {
                proof {
                    lemma_image_values_insert(cell_images@, key, image);
                }
                cell_images.insert(key, image);
            },
            None => {},
        }
        i += 1;
        assert(image_values(cell_images@) =~= Map::new(
            |key: u64|
                before.contains_key(key) || (listed_before(formula_cells@, i as int, key)
                    && shows_picture(formulas, key, ids, files, pictures)),
            |key: u64|
                if listed_before(formula_cells@, i as int, key) && shows_picture(
                    formulas,
                    key,
                    ids,
                    files,
                    pictures,
                ) {
                    formula_image(formulas[key], ids, files, pictures)->Some_0
                } else {
                    before[key]
                },
        ));
    }
    proof {
        assert forall|k: u64| formulas.contains_key(k) implies listed_before(
            formula_cells@,
            formula_cells@.len() as int,
            k,
        ) by {
            assert(cell_formulas@.contains_key(k));
        }
        assert(image_values(cell_images@) =~= with_formula_images(
            before,
            formulas,
            ids,
            files,
            pictures,
        ));
    }
}

/// The id under which an anchored picture is known: `floating_`, its row,
/// its column and its relationship id, joined by underscores.
pub open spec fn floating_id(image: FloatingModel) -> Seq<char> {
    "floating_"@ + decimal_text(image.row as nat) + "_"@ + decimal_text(image.col as nat) + "_"@
        + image.rid
}

/// The effect of one anchored picture: a cell that has no picture yet gets
/// the anchored one, if its file is among the pictures.
pub open spec fn floating_step(
    images: Map<u64, ImageModel>,
    image: FloatingModel,
    files: Map<Seq<char>, Seq<char>>,
    media: Map<Seq<char>, FileModel>,
) -> Map<u64, ImageModel> {
    if images.contains_key(cell_key(image.row, image.col)) {
        images
    } else {
        match picture_of(floating_id(image), image.rid, files, media) {
            Some(picture) => images.insert(cell_key(image.row, image.col), picture),
            None => images,
        }
    }
}

/// The cell pictures once the anchored pictures have been placed, in order.
pub open spec fn with_floating_images(
    images: Map<u64, ImageModel>,
    floating: Seq<FloatingModel>,
    files: Map<Seq<char>, Seq<char>>,
    media: Map<Seq<char>, FileModel>,
) -> Map<u64, ImageModel>
    decreases floating.len(),
{
    if floating.len() == 0 {
        images
    } else {
        floating_step(
            with_floating_images(images, floating.drop_last(), files, media),
            floating.last(),
            files,
            media,
        )
    }
}

/// A cell that has a picture before the anchored pictures are placed keeps
/// it: a picture that a formula shows wins over one anchored at the same cell.
pub proof fn lemma_anchored_pictures_yield(
    images: Map<u64, ImageModel>,
    floating: Seq<FloatingModel>,
    files: Map<Seq<char>, Seq<char>>,
    media: Map<Seq<char>, FileModel>,
    key: u64,
)
    requires
        images.contains_key(key),
    ensures
        with_floating_images(images, floating, files, media).contains_key(key),
        with_floating_images(images, floating, files, media)[key] == images[key],
    decreases floating.len(),
{
    if floating.len() > 0 {
        lemma_anchored_pictures_yield(images, floating.drop_last(), files, media, key);
    }
}

/// Every picture in the map holds at least eight bytes.
pub open spec fn all_embeddable(images: Map<u64, ImageModel>) -> bool {
    forall|key: u64| #[trigger] images.contains_key(key) ==> images[key].data.len() >= 8
}

/// Following the formulas brings in no picture shorter than eight bytes.
pub proof fn lemma_formula_pictures_are_embeddable(
    images: Map<u64, ImageModel>,
    formulas: Map<u64, Seq<char>>,
    ids: Map<Seq<char>, Seq<char>>,
    files: Map<Seq<char>, Seq<char>>,
    media: Map<Seq<char>, FileModel>,
)
    requires
        all_embeddable(images),
    ensures
        all_embeddable(with_formula_images(images, formulas, ids, files, media)),
{
}

/// Placing the anchored pictures brings in no picture shorter than eight bytes.
pub proof fn lemma_anchored_pictures_are_embeddable(
    images: Map<u64, ImageModel>,
    floating: Seq<FloatingModel>,
    files: Map<Seq<char>, Seq<char>>,
    media: Map<Seq<char>, FileModel>,
)
    requires
        all_embeddable(images),
    ensures
        all_embeddable(with_floating_images(images, floating, files, media)),
    decreases floating.len(),
{
    if floating.len() > 0 {
        lemma_anchored_pictures_are_embeddable(images, floating.drop_last(), files, media);
    }
}

/// The id under which an anchored picture is known.
fn floating_id_of(image: &FloatingImageInfo) -> (id: String)
    ensures
        id@ == floating_id(image@),
{
    let mut id = String::from_str("floating_");
    id.append(u64_to_text(image.row as u64).as_str());
    id.append("_");
    id.append(u64_to_text(image.col as u64).as_str());
    id.append("_");
    id.append(image.rid.as_str());
    id
}

/// Places the anchored pictures, in order, on the cells that have no
/// picture yet.
pub fn link_floating_images(
    cell_images: &mut HashMap<u64, EmbeddedImage>,
    media: &TextMap<MediaFile>,
    floating_images: &Vec<FloatingImageInfo>,
    rid_to_file: &TextMap<String>,
)
    ensures
        image_values(final(cell_images)@) == with_floating_images(
            image_values(old(cell_images)@),
            floating_model(floating_images@),
            text_values(rid_to_file@),
            file_values(media@),
        ),
{
    let ghost before = image_values(cell_images@);
    let ghost floating = floating_model(floating_images@);
    let mut i: usize = 0;
    assert(floating.take(0) == Seq::<FloatingModel>::empty());
    while i < floating_images.len()
        invariant
            i <= floating_images@.len(),
            floating == floating_model(floating_images@),
            image_values(cell_images@) == with_floating_images(
                before,
                floating.take(i as int),
                text_values(rid_to_file@),
                file_values(media@),
            ),
        decreases floating_images@.len() - i,
    {
        proof {
            assert(floating.take(i + 1).drop_last() == floating.take(i as int));
            assert(floating.take(i + 1).last() == floating_images@[i as int]@);
        }
        let image = &floating_images[i];
        let key = key_of(image.row, image.col);
        assert(cell_images@.contains_key(key) == image_values(cell_images@).contains_key(key));
        if !cell_images.contains_key(&key) {
            let id = floating_id_of(image);
            match find_picture(id, image.rid.as_str(), rid_to_file, media) {
                Some(picture) => {
                    proof {
                        lemma_image_values_insert(cell_images@, key, picture);
                    }
                    cell_images.insert(key, picture);
                },
                None => {},
            }
        }
        i += 1;
    }
    proof {
        assert(floating.take(i as int) == floating);
    }
}

} // verus!
