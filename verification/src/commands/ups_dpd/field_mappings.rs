//! The column mappings between the source data and the carrier templates.

use crate::text_map::{lemma_text_values_empty, lemma_text_values_insert, text_values, TextMap};
use vstd::prelude::*;

verus! {

/// A map of sheets, read as what the sheets say.
pub open spec fn sheets_model(sheets: Map<Seq<char>, TextMap<String>>) -> Map<
    Seq<char>,
    Map<Seq<char>, Seq<char>>,
> {
    sheets.map_values(|sheet: TextMap<String>| text_values(sheet@))
}

/// Maps a column of the data to a column of the template.
fn put(sheet: &mut TextMap<String>, data_field: &str, template_field: &str)
    ensures
        text_values(final(sheet)@) == text_values(old(sheet)@).insert(
            data_field@,
            template_field@,
        ),
{
    let value = String::from_str(template_field);
    proof {
        lemma_text_values_insert(sheet@, data_field@, value);
    }
    sheet.insert(String::from_str(data_field), value);
}

/// Adds a sheet to the mappings of a template.
fn put_sheet(mappings: &mut TextMap<TextMap<String>>, name: &str, sheet: TextMap<String>)
    ensures
        sheets_model(final(mappings)@) == sheets_model(old(mappings)@).insert(
            name@,
            text_values(sheet@),
        ),
{
    let ghost before = mappings@;
    mappings.insert(String::from_str(name), sheet);
    assert(sheets_model(mappings@) =~= sheets_model(before).insert(name@, text_values(sheet@)));
}

/// The columns of the sheet `运单清单` of the DPD template: from the column of
/// the data to the column of the template.
pub open spec fn dpd_list_columns() -> Map<Seq<char>, Seq<char>> {
    Map::<Seq<char>, Seq<char>>::empty()
        .insert("客户单号"@, "Remark\n（箱唛 or  FBA ）"@)
        .insert("转单号"@, "Tracking No"@)
        .insert("国家二字码"@, "County"@)
        .insert("件数"@, "PCS"@)
        .insert("收货实重"@, "GW (kg)"@)
        .insert("收货材积重"@, "VW（kg)"@)
        .insert("方数"@, "Cubic Number(CBM)"@)
        .insert("收件人邮编"@, "post Code"@)
}

/// The columns of the sheet `运单清单` of the DPD template.
pub fn dpd_list_mappings() -> (sheet: TextMap<String>)
    ensures
        text_values(sheet@) == dpd_list_columns(),
{
    let mut sheet: TextMap<String> = TextMap::new();
    proof {
        lemma_text_values_empty();
    }
    put(&mut sheet, "客户单号", "Remark\n（箱唛 or  FBA ）");
    put(&mut sheet, "转单号", "Tracking No");
    put(&mut sheet, "国家二字码", "County");
    put(&mut sheet, "件数", "PCS");
    put(&mut sheet, "收货实重", "GW (kg)");
    put(&mut sheet, "收货材积重", "VW（kg)");
    put(&mut sheet, "方数", "Cubic Number(CBM)");
    put(&mut sheet, "收件人邮编", "post Code");
    sheet
}

/// The columns of the sheet `子单号_detail` of the DPD template: from the column of
/// the data to the column of the template.
pub open spec fn dpd_detail_columns() -> Map<Seq<char>, Seq<char>> {
    Map::<Seq<char>, Seq<char>>::empty()
        .insert("客户单号"@, "参考号 （必填）"@)
        .insert("子转单号"@, "子单号（必填）"@)
}

/// The columns of the sheet `子单号_detail` of the DPD template.
pub fn dpd_detail_mappings() -> (sheet: TextMap<String>)
    ensures
        text_values(sheet@) == dpd_detail_columns(),
{
    let mut sheet: TextMap<String> = TextMap::new();
    proof {
        lemma_text_values_empty();
    }
    put(&mut sheet, "客户单号", "参考号 （必填）");
    put(&mut sheet, "子转单号", "子单号（必填）");
    sheet
}

/// The columns of the sheet `子单号_list` of the DPD template: from the column of
/// the data to the column of the template.
pub open spec fn dpd_sub_order_columns() -> Map<Seq<char>, Seq<char>> {
    Map::<Seq<char>, Seq<char>>::empty()
        .insert("转单号"@, "主单号（必填）"@)
        .insert("收件人公司"@, "公司"@)
        .insert("收件人姓名"@, "收件人"@)
        .insert("方数"@, "方数"@)
}

/// The columns of the sheet `子单号_list` of the DPD template.
pub fn dpd_sub_order_mappings() -> (sheet: TextMap<String>)
    ensures
        text_values(sheet@) == dpd_sub_order_columns(),
{
    let mut sheet: TextMap<String> = TextMap::new();
    proof {
        lemma_text_values_empty();
    }
    put(&mut sheet, "转单号", "主单号（必填）");
    put(&mut sheet, "收件人公司", "公司");
    put(&mut sheet, "收件人姓名", "收件人");
    put(&mut sheet, "方数", "方数");
    sheet
}

/// The column mappings of the DPD template, sheet by sheet.
pub open spec fn dpd_field_mappings() -> Map<Seq<char>, Map<Seq<char>, Seq<char>>> {
    Map::<Seq<char>, Map<Seq<char>, Seq<char>>>::empty()
        .insert("运单清单"@, dpd_list_columns())
        .insert("子单号_detail"@, dpd_detail_columns())
        .insert("子单号_list"@, dpd_sub_order_columns())
}

/// The column mappings of the DPD template, sheet by sheet.
pub fn dpd_mappings() -> (mappings: TextMap<TextMap<String>>)
    ensures
        sheets_model(mappings@) == dpd_field_mappings(),
{
    let mut mappings: TextMap<TextMap<String>> = TextMap::new();
    assert(sheets_model(mappings@) =~= Map::<Seq<char>, Map<Seq<char>, Seq<char>>>::empty());
    put_sheet(&mut mappings, "运单清单", dpd_list_mappings());
    put_sheet(&mut mappings, "子单号_detail", dpd_detail_mappings());
    put_sheet(&mut mappings, "子单号_list", dpd_sub_order_mappings());
    mappings
}

/// The columns of the sheet `总结单` of the UPS template: from the column of
/// the data to the column of the template.
pub open spec fn ups_summary_columns() -> Map<Seq<char>, Seq<char>> {
    Map::<Seq<char>, Seq<char>>::empty()
        .insert("转单号"@, "Tracking Number"@)
        .insert("件数"@, "Packages"@)
        .insert("收货实重"@, "G.W"@)
        .insert("收货材积重"@, "V.G"@)
        .insert("收件人邮编"@, "ZIP code"@)
        .insert("国家二字码"@, "country"@)
}

/// The columns of the sheet `总结单` of the UPS template.
pub fn ups_summary_mappings() -> (sheet: TextMap<String>)
    ensures
        text_values(sheet@) == ups_summary_columns(),
{
    let mut sheet: TextMap<String> = TextMap::new();
    proof {
        lemma_text_values_empty();
    }
    put(&mut sheet, "转单号", "Tracking Number");
    put(&mut sheet, "件数", "Packages");
    put(&mut sheet, "收货实重", "G.W");
    put(&mut sheet, "收货材积重", "V.G");
    put(&mut sheet, "收件人邮编", "ZIP code");
    put(&mut sheet, "国家二字码", "country");
    sheet
}

/// The columns of the sheet `运单信息` of the UPS template: from the column of
/// the data to the column of the template.
pub open spec fn ups_waybill_columns() -> Map<Seq<char>, Seq<char>> {
    Map::<Seq<char>, Seq<char>>::empty()
        .insert("客户单号"@, "参考号\n（Reference NO)"@)
        .insert("件数"@, "件数\n(PCS)"@)
        .insert("收货实重"@, "实重\n(Kg)"@)
        .insert("收货材积重"@, "材重\n(Kg)"@)
        .insert("国家二字码"@, "目的地\n(Destination)"@)
        .insert("转单号"@, "UPS主运单号\n(Tracking Number)"@)
        .insert("柜号"@, "提单号（集装箱/空运）"@)
}

/// The columns of the sheet `运单信息` of the UPS template.
pub fn ups_waybill_mappings() -> (sheet: TextMap<String>)
    ensures
        text_values(sheet@) == ups_waybill_columns(),
{
    let mut sheet: TextMap<String> = TextMap::new();
    proof {
        lemma_text_values_empty();
    }
    put(&mut sheet, "客户单号", "参考号\n（Reference NO)");
    put(&mut sheet, "件数", "件数\n(PCS)");
    put(&mut sheet, "收货实重", "实重\n(Kg)");
    put(&mut sheet, "收货材积重", "材重\n(Kg)");
    put(&mut sheet, "国家二字码", "目的地\n(Destination)");
    put(&mut sheet, "转单号", "UPS主运单号\n(Tracking Number)");
    put(&mut sheet, "柜号", "提单号（集装箱/空运）");
    sheet
}

/// The columns of the sheet `统计` of the UPS template: from the column of
/// the data to the column of the template.
pub open spec fn ups_statistics_columns() -> Map<Seq<char>, Seq<char>> {
    Map::<Seq<char>, Seq<char>>::empty()
        .insert("国家二字码"@, "Destination"@)
        .insert("件数"@, "Package"@)
        .insert("收货实重"@, "G.W"@)
        .insert("收货材积重"@, "V.W"@)
}

/// The columns of the sheet `统计` of the UPS template.
pub fn ups_statistics_mappings() -> (sheet: TextMap<String>)
    ensures
        text_values(sheet@) == ups_statistics_columns(),
{
    let mut sheet: TextMap<String> = TextMap::new();
    proof {
        lemma_text_values_empty();
    }
    put(&mut sheet, "国家二字码", "Destination");
    put(&mut sheet, "件数", "Package");
    put(&mut sheet, "收货实重", "G.W");
    put(&mut sheet, "收货材积重", "V.W");
    sheet
}

/// The columns of the sheet `德国邮编` of the UPS template: from the column of
/// the data to the column of the template.
pub open spec fn ups_german_columns() -> Map<Seq<char>, Seq<char>> {
    Map::<Seq<char>, Seq<char>>::empty()
        .insert("收件人邮编"@, "zipcode"@)
        .insert("件数"@, "PCS"@)
        .insert("收货实重"@, "GW"@)
        .insert("收货材积重"@, "VW"@)
        .insert("country"@, "country"@)
}

/// The columns of the sheet `德国邮编` of the UPS template.
pub fn ups_german_mappings() -> (sheet: TextMap<String>)
    ensures
        text_values(sheet@) == ups_german_columns(),
{
    let mut sheet: TextMap<String> = TextMap::new();
    proof {
        lemma_text_values_empty();
    }
    put(&mut sheet, "收件人邮编", "zipcode");
    put(&mut sheet, "件数", "PCS");
    put(&mut sheet, "收货实重", "GW");
    put(&mut sheet, "收货材积重", "VW");
    put(&mut sheet, "country", "country");
    sheet
}

/// The columns of the sheet `子单号` of the UPS template: from the column of
/// the data to the column of the template.
pub open spec fn ups_sub_order_columns() -> Map<Seq<char>, Seq<char>> {
    Map::<Seq<char>, Seq<char>>::empty()
        .insert("客户单号"@, "参考号\n（Reference NO)"@)
        .insert("子转单号"@, "UPS 子单号\n(Tracking Number)"@)
}

/// The columns of the sheet `子单号` of the UPS template.
pub fn ups_sub_order_mappings() -> (sheet: TextMap<String>)
    ensures
        text_values(sheet@) == ups_sub_order_columns(),
{
    let mut sheet: TextMap<String> = TextMap::new();
    proof {
        lemma_text_values_empty();
    }
    put(&mut sheet, "客户单号", "参考号\n（Reference NO)");
    put(&mut sheet, "子转单号", "UPS 子单号\n(Tracking Number)");
    sheet
}

/// The column mappings of the UPS template, sheet by sheet.
pub open spec fn ups_field_mappings() -> Map<Seq<char>, Map<Seq<char>, Seq<char>>> {
    Map::<Seq<char>, Map<Seq<char>, Seq<char>>>::empty()
        .insert("总结单"@, ups_summary_columns())
        .insert("运单信息"@, ups_waybill_columns())
        .insert("统计"@, ups_statistics_columns())
        .insert("德国邮编"@, ups_german_columns())
        .insert("子单号"@, ups_sub_order_columns())
}

/// The column mappings of the UPS template, sheet by sheet.
pub fn ups_mappings() -> (mappings: TextMap<TextMap<String>>)
    ensures
        sheets_model(mappings@) == ups_field_mappings(),
{
    let mut mappings: TextMap<TextMap<String>> = TextMap::new();
    assert(sheets_model(mappings@) =~= Map::<Seq<char>, Map<Seq<char>, Seq<char>>>::empty());
    put_sheet(&mut mappings, "总结单", ups_summary_mappings());
    put_sheet(&mut mappings, "运单信息", ups_waybill_mappings());
    put_sheet(&mut mappings, "统计", ups_statistics_mappings());
    put_sheet(&mut mappings, "德国邮编", ups_german_mappings());
    put_sheet(&mut mappings, "子单号", ups_sub_order_mappings());
    mappings
}

} // verus!
