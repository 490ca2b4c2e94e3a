//! Presentation facts of a worksheet: merged regions, styles, formulas, images.

use crate::commands::error::{CommandError, ErrorModel};
use crate::commands::excel::drawings::{
    cell_images_in, drawing_in, floating_model, parse_cell_images_xml, parse_drawing_xml,
    FloatingImageInfo, FloatingModel,
};
use crate::commands::excel::images::{
    link_floating_images, link_images_to_cells, shows_picture, formula_image,
    lemma_anchored_pictures_yield, with_floating_images, with_formula_images,
};
use crate::commands::excel::media::{names_of, MediaFiles, MediaModel};
use crate::commands::excel::package::{
    package_media, package_part, zip_entry_count, zip_failure, Package, PartModel, PartText,
};
use crate::commands::excel::relationships::{parse_relationships, relationships_in};
use crate::commands::excel::styles::{
    default_styles, parse_styles_xml, styles_failure_text, styles_progress, StylesInfo,
    StylesModel,
};
use crate::commands::excel::worksheet::{
    parse_metadata_from_xml, sheet_failure_text, sheet_progress, texts_of,
    MetadataModel, SheetMetadata,
};
use crate::commands::excel::xml::document_events;
use crate::models::excel::MergedRange;
use crate::numeric::{parse_u32, u32_value};
use crate::text::{
    chars_of, code_of, string_of, string_of_range, unicode_alphabetic, unicode_numeric,
};
use crate::text_map::{byte_values, text_values, TextMap};
use vstd::prelude::*;

verus! {

/// The place of a letter in the alphabet, counted from one; case is ignored
/// for ASCII letters, and any other character counts by its code point.
pub open spec fn letter_rank(c: char) -> int {
    if 'a' <= c <= 'z' {
        c as int - 'a' as int + 1
    } else {
        c as int - 'A' as int + 1
    }
}

/// The column that the alphabetic characters of `s` spell in base 26
/// (`A` is 1, `Z` is 26, `AA` is 27); zero where `s` has none.
pub open spec fn column_number(s: Seq<char>) -> int
    decreases s.len(),
{
    if s.len() == 0 {
        0
    } else if unicode_alphabetic(s.last()) {
        column_number(s.drop_last()) * 26 + letter_rank(s.last())
    } else {
        column_number(s.drop_last())
    }
}

/// The characters of `s` that are numeric and not alphabetic, in order.
pub open spec fn row_text(s: Seq<char>) -> Seq<char>
    decreases s.len(),
{
    if s.len() == 0 {
        Seq::empty()
    } else if !unicode_alphabetic(s.last()) && unicode_numeric(s.last()) {
        row_text(s.drop_last()).push(s.last())
    } else {
        row_text(s.drop_last())
    }
}

/// The zero-based `(row, column)` that a reference such as `B2` names: its
/// letters give the column, its digits the one-based row; other characters
/// are passed over. There is none where a part is missing, the row is zero,
/// or a part does not fit in 32 bits.
pub open spec fn cell_reference(s: Seq<char>) -> Option<(u32, u32)> {
    match u32_value(row_text(s)) {
        Some(row) if row >= 1 && 1 <= column_number(s) <= u32::MAX => Some(
            ((row - 1) as u32, (column_number(s) - 1) as u32),
        ),
        _ => None,
    }
}

/// Parses a cell reference such as `A1` into zero-based `(row, column)`.
pub fn parse_cell_reference(cell_ref: &str) -> (cell: Option<(u32, u32)>)
    ensures
        cell == cell_reference(cell_ref@),
{
    let chars = chars_of(cell_ref);
    let mut col: u64 = 0;
    let mut too_wide = false;
    let mut row_chars: Vec<char> = Vec::new();
    let mut i: usize = 0;
    assert(chars@.take(0) == Seq::<char>::empty());
    while i < chars.len()
        invariant
            i <= chars@.len(),
            chars@ == cell_ref@,
            row_chars@ == row_text(chars@.take(i as int)),
            !too_wide ==> col == column_number(chars@.take(i as int)) && col <= u32::MAX,
            too_wide ==> column_number(chars@.take(i as int)) > u32::MAX,
        decreases chars@.len() - i,
    {
        let c = chars[i];
        proof {
            assert(chars@.take(i + 1).drop_last() == chars@.take(i as int));
            assert(chars@.take(i + 1).last() == c);
        }
        let alphabetic = c.is_alphabetic();
        if alphabetic {
            let code: u32 = code_of(c);
            let rank: u64 = if c >= 'a' && c <= 'z' {
                (code - 97 + 1) as u64
            } else {
                (code - 65 + 1) as u64
            };
            assert(rank == letter_rank(c));
            if !too_wide {
                let next: u64 = col * 26 + rank;
                if next > 0xffff_ffff {
                    too_wide = true;
                } else {
                    col = next;
                }
                assert(column_number(chars@.take(i + 1)) == next);
            } else {
                assert(column_number(chars@.take(i + 1)) > u32::MAX) by (nonlinear_arith)
                    requires
                        column_number(chars@.take(i + 1)) == column_number(chars@.take(i as int))
                            * 26 + letter_rank(c),
                        letter_rank(c) >= 1,
                        column_number(chars@.take(i as int)) > u32::MAX,
                ;
            }
        } else if c.is_numeric() {
            row_chars.push(c);
        }
        i += 1;
    }
    proof {
        assert(chars@.take(i as int) == chars@);
    }
    if too_wide || col == 0 {
        return None;
    }
    let row_string = string_of(&row_chars);
    match parse_u32(row_string.as_str()) {
        Some(row) => {
            if row == 0 {
                None
            } else {
                Some((row - 1, (col - 1) as u32))
            }
        },
        None => None,
    }
}

/// How many times `c` occurs in `s`.
pub open spec fn count_char(s: Seq<char>, c: char) -> nat
    decreases s.len(),
{
    if s.len() == 0 {
        0
    } else if s.last() == c {
        count_char(s.drop_last(), c) + 1
    } else {
        count_char(s.drop_last(), c)
    }
}

/// The block that a range such as `A1:B3` names: exactly one colon, with a
/// cell reference on each side of it. The corners are taken as written.
pub open spec fn cell_range(s: Seq<char>) -> Option<MergedRange> {
    if count_char(s, ':') == 1 {
        let at = s.index_of(':');
        match (cell_reference(s.take(at)), cell_reference(s.skip(at + 1))) {
            (Some(start), Some(end)) => Some(
                MergedRange {
                    start_row: start.0,
                    start_col: start.1,
                    end_row: end.0,
                    end_col: end.1,
                },
            ),
            _ => None,
        }
    } else {
        None
    }
}

/// Parses a range such as `A1:B3` into the block it names.
pub fn parse_cell_range(range_str: &str) -> (range: Option<MergedRange>)
    ensures
        range == cell_range(range_str@),
{
    let chars = chars_of(range_str);
    let mut colons: usize = 0;
    let mut at: usize = 0;
    let mut i: usize = 0;
    assert(chars@.take(0) == Seq::<char>::empty());
    while i < chars.len()
        invariant
            i <= chars@.len(),
            colons == count_char(chars@.take(i as int), ':'),
            colons <= i,
            colons == 0 ==> forall|k: int| 0 <= k < i ==> chars@[k] != ':',
            colons >= 1 ==> at < i && chars@[at as int] == ':',
            colons == 1 ==> forall|k: int| 0 <= k < i && k != at ==> chars@[k] != ':',
        decreases chars@.len() - i,
    {
        proof {
            assert(chars@.take(i + 1).drop_last() == chars@.take(i as int));
            assert(chars@.take(i + 1).last() == chars@[i as int]);
        }
        if chars[i] == ':' {
            if colons == 0 {
                at = i;
            }
            colons += 1;
        }
        i += 1;
    }
    proof {
        assert(chars@.take(i as int) == chars@);
    }
    if colons != 1 {
        return None;
    }
    proof {
        let found = chars@.index_of(':');
        assert(chars@.contains(':'));
        assert(0 <= found < chars@.len() && chars@[found] == ':');
        assert(found == at);
    }
    let first = string_of_range(&chars, 0, at);
    let second = string_of_range(&chars, at + 1, chars.len());
    proof {
        assert(chars@.subrange(0, at as int) == chars@.take(at as int));
        assert(chars@.subrange(at + 1, chars@.len() as int) == chars@.skip(at + 1));
    }
    match (parse_cell_reference(first.as_str()), parse_cell_reference(second.as_str())) {
        (Some(start), Some(end)) => Some(
            MergedRange { start_row: start.0, start_col: start.1, end_row: end.0, end_col: end.1 },
        ),
        _ => None,
    }
}

/// The links to follow for pictures that formulas show: those of the
/// cell-image list, or those of the drawing where that list gives none.
pub open spec fn preferred(
    first: Map<Seq<char>, Seq<char>>,
    second: Map<Seq<char>, Seq<char>>,
) -> Map<Seq<char>, Seq<char>> {
    if first == Map::<Seq<char>, Seq<char>>::empty() {
        second
    } else {
        first
    }
}

/// The facts of a worksheet with its pictures brought in: each formula that
/// shows a picture is followed through the preferred links, then the
/// anchored pictures fill cells that are still without one, and the lists of
/// converted and unsupported pictures are taken over.
pub open spec fn assembled(
    metadata: MetadataModel,
    media: MediaModel,
    cell_ids: Map<Seq<char>, Seq<char>>,
    cell_files: Map<Seq<char>, Seq<char>>,
    drawing_ids: Map<Seq<char>, Seq<char>>,
    floating: Seq<FloatingModel>,
    drawing_files: Map<Seq<char>, Seq<char>>,
) -> MetadataModel {
    MetadataModel {
        cell_images: with_floating_images(
            with_formula_images(
                metadata.cell_images,
                metadata.cell_formulas,
                preferred(cell_ids, drawing_ids),
                preferred(cell_files, drawing_files),
                media.files,
            ),
            floating,
            drawing_files,
            media.files,
        ),
        converted_images: media.converted,
        unsupported_images: media.unsupported,
        ..metadata
    }
}

/// A picture that a formula shows wins over one anchored at the same cell:
/// whatever is anchored where, a cell whose formula shows a picture ends up
/// with that picture.
pub proof fn lemma_formula_picture_wins(
    metadata: MetadataModel,
    media: MediaModel,
    cell_ids: Map<Seq<char>, Seq<char>>,
    cell_files: Map<Seq<char>, Seq<char>>,
    drawing_ids: Map<Seq<char>, Seq<char>>,
    floating: Seq<FloatingModel>,
    drawing_files: Map<Seq<char>, Seq<char>>,
    key: u64,
)
    requires
        shows_picture(
            metadata.cell_formulas,
            key,
            preferred(cell_ids, drawing_ids),
            preferred(cell_files, drawing_files),
            media.files,
        ),
    ensures
        assembled(
            metadata,
            media,
            cell_ids,
            cell_files,
            drawing_ids,
            floating,
            drawing_files,
        ).cell_images.contains_key(key),
        assembled(
            metadata,
            media,
            cell_ids,
            cell_files,
            drawing_ids,
            floating,
            drawing_files,
        ).cell_images[key] == formula_image(
            metadata.cell_formulas[key],
            preferred(cell_ids, drawing_ids),
            preferred(cell_files, drawing_files),
            media.files,
        )->Some_0,
{
    let linked = with_formula_images(
        metadata.cell_images,
        metadata.cell_formulas,
        preferred(cell_ids, drawing_ids),
        preferred(cell_files, drawing_files),
        media.files,
    );
    assert(linked.contains_key(key));
    lemma_anchored_pictures_yield(linked, floating, drawing_files, media.files, key);
}

/// A map of strings reads as the empty map of texts only if it is empty.
proof fn lemma_text_values_is_empty(map: Map<Seq<char>, String>)
    ensures
        (text_values(map) == Map::<Seq<char>, Seq<char>>::empty()) == (map == Map::<
            Seq<char>,
            String,
        >::empty()),
{
    if map == Map::<Seq<char>, String>::empty() {
        assert(text_values(map) =~= Map::<Seq<char>, Seq<char>>::empty());
    }
    if text_values(map) == Map::<Seq<char>, Seq<char>>::empty() {
        assert forall|k: Seq<char>| !map.contains_key(k) by {
            assert(!text_values(map).contains_key(k));
        }
        assert(map =~= Map::<Seq<char>, String>::empty());
    }
}

/// Brings the pictures into the facts of a worksheet.
pub fn assemble_metadata(
    metadata: SheetMetadata,
    media: MediaFiles,
    cell_ids: TextMap<String>,
    cell_files: TextMap<String>,
    drawing_ids: TextMap<String>,
    floating: Vec<FloatingImageInfo>,
    drawing_files: TextMap<String>,
) -> (whole: SheetMetadata)
    requires
        metadata.wf(),
    ensures
        whole.wf(),
        whole@ == assembled(
            metadata@,
            media@,
            text_values(cell_ids@),
            text_values(cell_files@),
            text_values(drawing_ids@),
            floating_model(floating@),
            text_values(drawing_files@),
        ),
{
    let mut metadata = metadata;
    proof {
        lemma_text_values_is_empty(cell_ids@);
        lemma_text_values_is_empty(cell_files@);
    }
    let ids = if cell_ids.is_empty() {
        &drawing_ids
    } else {
        &cell_ids
    };
    let files = if cell_files.is_empty() {
        &drawing_files
    } else {
        &cell_files
    };
    link_images_to_cells(
        &mut metadata.cell_images,
        &metadata.cell_formulas,
        &metadata.formula_cells,
        &media.files,
        ids,
        files,
    );
    link_floating_images(&mut metadata.cell_images, &media.files, &floating, &drawing_files);
    metadata.converted_images = media.converted;
    metadata.unsupported_images = media.unsupported;
    assert(texts_of(metadata.converted_images@) == names_of(metadata.converted_images@));
    assert(texts_of(metadata.unsupported_images@) == names_of(metadata.unsupported_images@));
    metadata
}

/// The text of an optional part: empty where the part is missing or
/// cannot be read.
pub open spec fn optional_text(part: PartModel) -> Seq<char> {
    match part {
        PartModel::Text(text) => text,
        _ => Seq::empty(),
    }
}

/// The style tables of the package in `bytes`: those of its styles part,
/// or empty ones where it has none. A styles part that cannot be read is a
/// `FILE_ERROR`, a malformed one a `PARSE_ERROR`.
pub open spec fn package_styles(bytes: Seq<u8>) -> Result<StylesModel, ErrorModel> {
    match package_part(bytes, "xl/styles.xml"@) {
        PartModel::Missing(_) => Ok(default_styles()),
        PartModel::Unreadable(why) => Err(
            ErrorModel { message: "读取样式 XML 失败: "@ + why, code: "FILE_ERROR"@ },
        ),
        PartModel::Text(xml) => match styles_progress(document_events(xml)).failure {
            Some(why) => Err(
                ErrorModel { message: styles_failure_text(why), code: "PARSE_ERROR"@ },
            ),
            None => Ok(styles_progress(document_events(xml)).styles),
        },
    }
}

/// The facts of the first worksheet of the package in `bytes`, without its
/// pictures. A package without that part, or with one that cannot be
/// read, is a `FILE_ERROR`; a malformed part is a `PARSE_ERROR`.
pub open spec fn package_sheet(bytes: Seq<u8>, styles: StylesModel) -> Result<
    MetadataModel,
    ErrorModel,
> {
    match package_part(bytes, "xl/worksheets/sheet1.xml"@) {
        PartModel::Missing(why) => Err(
            ErrorModel { message: "找不到工作表 XML: "@ + why, code: "FILE_ERROR"@ },
        ),
        PartModel::Unreadable(why) => Err(
            ErrorModel { message: "读取 XML 失败: "@ + why, code: "FILE_ERROR"@ },
        ),
        PartModel::Text(xml) => match sheet_progress(document_events(xml), styles).failure {
            Some(why) => Err(ErrorModel { message: sheet_failure_text(why), code: "PARSE_ERROR"@ }),
            None => Ok(sheet_progress(document_events(xml), styles).metadata),
        },
    }
}

/// Where a package keeps its cell-image list.
pub open spec fn cell_images_part() -> Seq<char> {
    "xl/cellimages.xml"@
}

/// Where a package keeps the relationships of its cell-image list.
pub open spec fn cell_image_rels_part() -> Seq<char> {
    "xl/_rels/cellimages.xml.rels"@
}

/// Where a package keeps its first drawing.
pub open spec fn drawing_part() -> Seq<char> {
    "xl/drawings/drawing1.xml"@
}

/// Where a package keeps the relationships of its first drawing.
pub open spec fn drawing_rels_part() -> Seq<char> {
    "xl/drawings/_rels/drawing1.xml.rels"@
}

/// The text of the optional part `name` of the package in `bytes`; a part
/// that is missing or cannot be read counts as empty text.
pub open spec fn optional_part(bytes: Seq<u8>, name: Seq<char>) -> Seq<char> {
    optional_text(package_part(bytes, name))
}

/// The relationships that the part `name` of the package in `bytes`
/// declares: none where the part is missing or empty, and the error of the
/// malformed text where it is malformed.
pub open spec fn package_relationships(bytes: Seq<u8>, name: Seq<char>) -> Result<
    Map<Seq<char>, Seq<char>>,
    ErrorModel,
> {
    relationships_in(optional_part(bytes, name))
}

/// Everything a package says about where its pictures belong.
pub struct PictureLinksModel {
    pub cell_ids: Map<Seq<char>, Seq<char>>,
    pub cell_files: Map<Seq<char>, Seq<char>>,
    pub drawing_ids: Map<Seq<char>, Seq<char>>,
    pub floating: Seq<FloatingModel>,
    pub drawing_files: Map<Seq<char>, Seq<char>>,
}

/// What the package in `bytes` says about where its pictures belong. The
/// four parts are read in this order: the cell-image list, its
/// relationships, the first drawing, its relationships. Each is optional:
/// one that is missing or empty says nothing. Malformed text in one is a
/// `PARSE_ERROR`, and the first to fail gives the error.
pub open spec fn package_links(bytes: Seq<u8>) -> Result<PictureLinksModel, ErrorModel> {
    match cell_images_in(optional_part(bytes, cell_images_part())) {
        Err(error) => Err(error),
        Ok(cell_ids) => match package_relationships(bytes, cell_image_rels_part()) {
            Err(error) => Err(error),
            Ok(cell_files) => match drawing_in(optional_part(bytes, drawing_part())) {
                Err(error) => Err(error),
                Ok(drawn) => match package_relationships(bytes, drawing_rels_part()) {
                    Err(error) => Err(error),
                    Ok(drawing_files) => Ok(
                        PictureLinksModel {
                            cell_ids,
                            cell_files,
                            drawing_ids: drawn.0,
                            floating: drawn.1,
                            drawing_files,
                        },
                    ),
                },
            },
        },
    }
}

/// The presentation facts of the first worksheet of the package in `bytes`.
/// Bytes that are no archive are a `FILE_ERROR`. Then the styles are read,
/// then the parts that say where pictures belong, then the worksheet, and
/// the first of them to fail gives the error: malformed XML in any part is
/// a `PARSE_ERROR`, and nothing is handed out in part. `conversions` holds,
/// by entry name, the PNG bytes that a converter made of the pictures that
/// wanted conversion.
pub open spec fn package_metadata(bytes: Seq<u8>, conversions: Map<Seq<char>, Seq<u8>>) -> Result<
    MetadataModel,
    ErrorModel,
> {
    match zip_failure(bytes) {
        Some(why) => Err(
            ErrorModel { message: "解析 ZIP 文件失败: "@ + why, code: "FILE_ERROR"@ },
        ),
        None => match package_styles(bytes) {
            Err(error) => Err(error),
            Ok(styles) => match package_links(bytes) {
                Err(error) => Err(error),
                Ok(links) => match package_sheet(bytes, styles) {
                    Err(error) => Err(error),
                    Ok(metadata) => Ok(
                        assembled(
                            metadata,
                            package_media(bytes, zip_entry_count(bytes), conversions),
                            links.cell_ids,
                            links.cell_files,
                            links.drawing_ids,
                            links.floating,
                            links.drawing_files,
                        ),
                    ),
                },
            },
        },
    }
}

/// Whether the package in `bytes` lacks the part `name`.
pub open spec fn lacks_part(bytes: Seq<u8>, name: Seq<char>) -> bool {
    package_part(bytes, name) is Missing
}

/// What a package without picture-link parts says about where its pictures
/// belong: nothing.
pub open spec fn no_links() -> PictureLinksModel {
    PictureLinksModel {
        cell_ids: Map::empty(),
        cell_files: Map::empty(),
        drawing_ids: Map::empty(),
        floating: Seq::empty(),
        drawing_files: Map::empty(),
    }
}

/// A part that a package lacks is no error: without a styles part the
/// styles are the default ones, without a cell-image list or a drawing
/// there are no picture ids and no anchored pictures, and without a
/// relationship part there are no relationships.
pub proof fn lemma_absent_parts_say_nothing(bytes: Seq<u8>, name: Seq<char>)
    ensures
        lacks_part(bytes, "xl/styles.xml"@) ==> package_styles(bytes) == Ok::<
            StylesModel,
            ErrorModel,
        >(default_styles()),
        lacks_part(bytes, cell_images_part()) ==> cell_images_in(
            optional_part(bytes, cell_images_part()),
        ) == Ok::<Map<Seq<char>, Seq<char>>, ErrorModel>(Map::empty()),
        lacks_part(bytes, drawing_part()) ==> drawing_in(optional_part(bytes, drawing_part()))
            == Ok::<(Map<Seq<char>, Seq<char>>, Seq<FloatingModel>), ErrorModel>(
            (Map::empty(), Seq::empty()),
        ),
        lacks_part(bytes, name) ==> package_relationships(bytes, name) == Ok::<
            Map<Seq<char>, Seq<char>>,
            ErrorModel,
        >(Map::empty()),
{
}

/// The absence of the optional parts alone never gives an error: a package
/// that opens and lacks the styles part and the four picture-link parts
/// fails only where its worksheet does, with the worksheet's error, and
/// otherwise gives the worksheet's facts under the default styles.
pub proof fn lemma_absent_parts_are_no_error(bytes: Seq<u8>, conversions: Map<Seq<char>, Seq<u8>>)
    requires
        zip_failure(bytes) is None,
        lacks_part(bytes, "xl/styles.xml"@),
        lacks_part(bytes, cell_images_part()),
        lacks_part(bytes, cell_image_rels_part()),
        lacks_part(bytes, drawing_part()),
        lacks_part(bytes, drawing_rels_part()),
    ensures
        package_links(bytes) == Ok::<PictureLinksModel, ErrorModel>(no_links()),
        match package_sheet(bytes, default_styles()) {
            Ok(metadata) => package_metadata(bytes, conversions) == Ok::<
                MetadataModel,
                ErrorModel,
            >(
                assembled(
                    metadata,
                    package_media(bytes, zip_entry_count(bytes), conversions),
                    Map::empty(),
                    Map::empty(),
                    Map::empty(),
                    Seq::empty(),
                    Map::empty(),
                ),
            ),
            Err(error) => package_metadata(bytes, conversions) == Err::<
                MetadataModel,
                ErrorModel,
            >(error),
        },
{
    lemma_absent_parts_say_nothing(bytes, cell_image_rels_part());
    lemma_absent_parts_say_nothing(bytes, drawing_rels_part());
}

/// The text of an optional part.
fn text_or_empty(part: PartText) -> (text: String)
    ensures
        text@ == optional_text(part@),
{
    match part {
        PartText::Text(text) => text,
        _ => String::new(),
    }
}

/// Reads the style tables of a package.
fn read_styles(package: &mut Package) -> (styles: Result<StylesInfo, CommandError>)
    ensures
        final(package).source() == old(package).source(),
        match styles {
            Ok(s) => package_styles(old(package).source()) == Ok::<StylesModel, ErrorModel>(s@),
            Err(e) => package_styles(old(package).source()) == Err::<StylesModel, ErrorModel>(e@),
        },
{
    match package.read_part("xl/styles.xml") {
        PartText::Missing(_) => Ok(StylesInfo::empty()),
        PartText::Unreadable(why) => Err(
            CommandError::with_reason("读取样式 XML 失败: ", why.as_str(), "FILE_ERROR"),
        ),
        PartText::Text(xml) => parse_styles_xml(xml.as_str()),
    }
}

/// Reads the facts of the first worksheet of a package, without its pictures.
fn read_sheet(package: &mut Package, styles: &StylesInfo) -> (sheet: Result<
    SheetMetadata,
    CommandError,
>)
    ensures
        final(package).source() == old(package).source(),
        match sheet {
            Ok(m) => m.wf() && package_sheet(old(package).source(), styles@) == Ok::<
                MetadataModel,
                ErrorModel,
            >(m@),
            Err(e) => package_sheet(old(package).source(), styles@) == Err::<
                MetadataModel,
                ErrorModel,
            >(e@),
        },
{
    match package.read_part("xl/worksheets/sheet1.xml") {
        PartText::Missing(why) => Err(
            CommandError::with_reason("找不到工作表 XML: ", why.as_str(), "FILE_ERROR"),
        ),
        PartText::Unreadable(why) => Err(
            CommandError::with_reason("读取 XML 失败: ", why.as_str(), "FILE_ERROR"),
        ),
        PartText::Text(xml) => parse_metadata_from_xml(xml.as_str(), styles),
    }
}

/// Reads the relationships of the cell-image list: from relationship id to
/// picture file name; none where the package has no such part, and a
/// `PARSE_ERROR` where the part is malformed.
pub fn parse_cellimages_rels(package: &mut Package) -> (parsed: Result<
    TextMap<String>,
    CommandError,
>)
    ensures
        final(package).source() == old(package).source(),
        match parsed {
            Ok(targets) => package_relationships(old(package).source(), cell_image_rels_part())
                == Ok::<Map<Seq<char>, Seq<char>>, ErrorModel>(text_values(targets@)),
            Err(error) => package_relationships(old(package).source(), cell_image_rels_part())
                == Err::<Map<Seq<char>, Seq<char>>, ErrorModel>(error@),
        },
{
    parse_relationships(text_or_empty(package.read_part("xl/_rels/cellimages.xml.rels")).as_str())
}

/// Reads the relationships of the first drawing: from relationship id to
/// picture file name; none where the package has no such part, and a
/// `PARSE_ERROR` where the part is malformed.
pub fn parse_drawing_rels(package: &mut Package) -> (parsed: Result<TextMap<String>, CommandError>)
    ensures
        final(package).source() == old(package).source(),
        match parsed {
            Ok(targets) => package_relationships(old(package).source(), drawing_rels_part())
                == Ok::<Map<Seq<char>, Seq<char>>, ErrorModel>(text_values(targets@)),
            Err(error) => package_relationships(old(package).source(), drawing_rels_part())
                == Err::<Map<Seq<char>, Seq<char>>, ErrorModel>(error@),
        },
{
    parse_relationships(
        text_or_empty(package.read_part("xl/drawings/_rels/drawing1.xml.rels")).as_str(),
    )
}

/// Everything a package says about where its pictures belong.
pub struct PictureLinks {
    pub cell_ids: TextMap<String>,
    pub cell_files: TextMap<String>,
    pub drawing_ids: TextMap<String>,
    pub floating: Vec<FloatingImageInfo>,
    pub drawing_files: TextMap<String>,
}

impl View for PictureLinks {
    type V = PictureLinksModel;

    open spec fn view(&self) -> PictureLinksModel {
        PictureLinksModel {
            cell_ids: text_values(self.cell_ids@),
            cell_files: text_values(self.cell_files@),
            drawing_ids: text_values(self.drawing_ids@),
            floating: floating_model(self.floating@),
            drawing_files: text_values(self.drawing_files@),
        }
    }
}

/// Reads what a package says about where its pictures belong.
pub fn read_picture_links(package: &mut Package) -> (parsed: Result<PictureLinks, CommandError>)
    ensures
        final(package).source() == old(package).source(),
        match parsed {
            Ok(links) => package_links(old(package).source()) == Ok::<
                PictureLinksModel,
                ErrorModel,
            >(links@),
            Err(error) => package_links(old(package).source()) == Err::<
                PictureLinksModel,
                ErrorModel,
            >(error@),
        },
{
    let cell_ids = match parse_cell_images_xml(
        text_or_empty(package.read_part("xl/cellimages.xml")).as_str(),
    ) {
        Ok(ids) => ids,
        Err(error) => {
            return Err(error);
        },
    };
    let cell_files = match parse_cellimages_rels(package) {
        Ok(files) => files,
        Err(error) => {
            return Err(error);
        },
    };
    let (drawing_ids, floating) = match parse_drawing_xml(
        text_or_empty(package.read_part("xl/drawings/drawing1.xml")).as_str(),
    ) {
        Ok(drawn) => drawn,
        Err(error) => {
            return Err(error);
        },
    };
    let drawing_files = match parse_drawing_rels(package) {
        Ok(files) => files,
        Err(error) => {
            return Err(error);
        },
    };
    Ok(PictureLinks { cell_ids, cell_files, drawing_ids, floating, drawing_files })
}

/// Reads the presentation facts of the first worksheet of the workbook
/// package held in `bytes`: merged regions, column widths, styles, formulas
/// and pictures. `conversions` holds, by entry name, the PNG bytes that a
/// converter made of the package's pictures that wanted conversion (see
/// `Package::conversion_candidates`); a picture that wanted it and is not
/// there is listed as unsupported.
pub fn parse_sheet_metadata(bytes: Vec<u8>, conversions: &TextMap<Vec<u8>>) -> (parsed: Result<
    SheetMetadata,
    CommandError,
>)
    ensures
        match parsed {
            Ok(m) => m.wf() && package_metadata(bytes@, byte_values(conversions@)) == Ok::<
                MetadataModel,
                ErrorModel,
            >(m@),
            Err(e) => package_metadata(bytes@, byte_values(conversions@)) == Err::<
                MetadataModel,
                ErrorModel,
            >(e@),
        },
{
    let mut package = match Package::open(bytes) {
        Ok(package) => package,
        Err(why) => {
            return Err(CommandError::with_reason("解析 ZIP 文件失败: ", why.as_str(), "FILE_ERROR"));
        },
    };
    let styles = match read_styles(&mut package) {
        Ok(styles) => styles,
        Err(error) => {
            return Err(error);
        },
    };
    let media = package.read_media_files(conversions);
    let links = match read_picture_links(&mut package) {
        Ok(links) => links,
        Err(error) => {
            return Err(error);
        },
    };
    let metadata = match read_sheet(&mut package, &styles) {
        Ok(metadata) => metadata,
        Err(error) => {
            return Err(error);
        },
    };
    Ok(
        assemble_metadata(
            metadata,
            media,
            links.cell_ids,
            links.cell_files,
            links.drawing_ids,
            links.floating,
            links.drawing_files,
        ),
    )
}

/// Reads the merged regions of the first worksheet of the workbook package
/// held in `bytes`. No picture is converted for this.
pub fn parse_merged_cells(bytes: Vec<u8>) -> (parsed: Result<Vec<MergedRange>, CommandError>)
    ensures
        match parsed {
            Ok(ranges) => package_metadata(bytes@, Map::empty()) is Ok && ranges@
                == package_metadata(bytes@, Map::empty())->Ok_0.merged_ranges,
            Err(e) => package_metadata(bytes@, Map::empty()) == Err::<MetadataModel, ErrorModel>(
                e@,
            ),
        },
{
    let conversions: TextMap<Vec<u8>> = TextMap::new();
    assert(byte_values(conversions@) =~= Map::<Seq<char>, Seq<u8>>::empty());
    match parse_sheet_metadata(bytes, &conversions) {
        Ok(metadata) => Ok(metadata.merged_ranges),
        Err(error) => Err(error),
    }
}

} // verus!
