use liao_tools::commands::alta::excel::ExcelProcessor;
use liao_tools::commands::error::CommandError;
use liao_tools::commands::ups_dpd::dpd_processor_v2::DpdProcessorV2;
use liao_tools::commands::ups_dpd::ups_processor_v2::UpsProcessorV2;
use liao_tools::commands::excel::config::{
    get_default_configs, load_config_for_type, save_config_for_type,
};
use liao_tools::commands::excel::reader::{ExcelSheet, SheetCell};
use liao_tools::commands::ups_dpd::dpd_processor::DpdProcessor;
use liao_tools::commands::tax::scraper::ScraperError;
use liao_tools::commands::ups_dpd::template_manager;
use liao_tools::commands::ups_dpd::template_manager::TemplateChoice;
use liao_tools::commands::ups_dpd::ups_processor::UpsProcessor;
use liao_tools::models::alta::{ForbiddenItem, HsCodeEntry};
use liao_tools::models::excel::{MergedRange, ProcessConfig, ProcessType};
use liao_tools::models::ups_dpd::{FieldMapping, SheetConfig, TemplateConfig, TemplateType};
use liao_tools::numeric::{is_decimal, parse_i64, parse_u32, u64_to_text};
use liao_tools::text::{has_text, starts_with, str_eq};
use liao_tools::text_map::TextMap;

#[test]
fn errors_show_their_code_and_message() {
    let error = CommandError::new("went wrong", "FILE_ERROR");
    assert_eq!(error.message, "went wrong");
    assert_eq!(error.code, "FILE_ERROR");
    assert_eq!(error.to_display_string(), "FILE_ERROR: went wrong");
    let plain = CommandError::from_message("oops".to_string());
    assert_eq!(plain.to_display_string(), "ERROR: oops");
    let reasoned = CommandError::with_reason("lead: ", "why", "X");
    assert_eq!(reasoned.to_display_string(), "X: lead: why");
}

#[test]
fn layouts_are_named_in_kebab_case() {
    for (label, kind) in [
        ("sea-rail-with-image", ProcessType::SeaRailWithImage),
        ("sea-rail-no-image", ProcessType::SeaRailNoImage),
        ("air-freight", ProcessType::AirFreight),
    ] {
        assert_eq!(ProcessType::from_string(label), Some(kind));
        assert_eq!(kind.to_string(), label);
    }
    assert_eq!(ProcessType::from_string("Air-Freight"), None);
    assert_eq!(ProcessType::from_string(""), None);
}

#[test]
fn layouts_start_with_their_usual_columns() {
    let sea = ProcessConfig::default_for_type(ProcessType::SeaRailWithImage);
    assert_eq!((sea.weight_column, sea.box_column, sea.copy_images), (13, 11, true));
    let bare = ProcessConfig::default_for_type(ProcessType::SeaRailNoImage);
    assert_eq!((bare.weight_column, bare.box_column, bare.copy_images), (13, 11, false));
    let air = ProcessConfig::default_for_type(ProcessType::AirFreight);
    assert_eq!((air.weight_column, air.box_column, air.copy_images), (15, 13, true));
    assert_eq!(air.process_type, ProcessType::AirFreight);
    assert!(air.is_valid());
    assert!(!ProcessConfig { weight_column: 1, ..air }.is_valid());
    assert!(!ProcessConfig { box_column: 0, ..air }.is_valid());
}

#[test]
fn settings_are_kept_by_label() {
    let mut configs = get_default_configs();
    assert_eq!(configs.entries.len(), 3);
    assert_eq!(load_config_for_type(&configs, "air-freight").unwrap().weight_column, 15);
    let changed = ProcessConfig {
        process_type: ProcessType::AirFreight,
        weight_column: 20,
        box_column: 18,
        copy_images: false,
    };
    save_config_for_type(&mut configs, &changed);
    let loaded = load_config_for_type(&configs, "air-freight").unwrap();
    assert_eq!((loaded.weight_column, loaded.box_column, loaded.copy_images), (20, 18, false));
    assert_eq!(load_config_for_type(&configs, "sea-rail-no-image").unwrap().weight_column, 13);

    let empty: TextMap<ProcessConfig> = TextMap::new();
    assert_eq!(load_config_for_type(&empty, "sea-rail-with-image").unwrap().box_column, 11);
    let error = load_config_for_type(&empty, "by-road").unwrap_err();
    assert_eq!(error.code, "CONFIG_ERROR");
    assert_eq!(error.message, "未知的处理类型: by-road");
}

#[test]
fn a_region_contains_its_corners_and_what_lies_between() {
    let range = MergedRange { start_row: 2, start_col: 1, end_row: 4, end_col: 3 };
    assert!(range.contains(2, 1));
    assert!(range.contains(4, 3));
    assert!(range.contains(3, 2));
    assert!(!range.contains(1, 2));
    assert!(!range.contains(5, 2));
    assert!(!range.contains(3, 0));
    assert!(!range.contains(3, 4));
    let inverted = MergedRange { start_row: 4, start_col: 1, end_row: 2, end_col: 3 };
    assert!(!inverted.contains(3, 2));
}

#[test]
fn carriers_are_named_whatever_the_case() {
    assert_eq!(TemplateType::from_string("ups"), Some(TemplateType::Ups));
    assert_eq!(TemplateType::from_string("UPS"), Some(TemplateType::Ups));
    assert_eq!(TemplateType::from_string("Dpd"), Some(TemplateType::Dpd));
    assert_eq!(TemplateType::from_string("dhl"), None);
    assert_eq!(TemplateType::from_lowercase("UPS"), None);
    assert_eq!(TemplateType::Ups.to_string(), "ups");
    assert_eq!(TemplateType::Dpd.to_string(), "dpd");
    let config = TemplateConfig::default_for_type(TemplateType::Dpd);
    assert_eq!(config.template_type, TemplateType::Dpd);
    assert!(config.template_path.is_none() && config.use_default);
}

#[test]
fn mappings_and_sheets_keep_what_they_are_given() {
    let mapping = FieldMapping::new("件数", "PCS");
    assert_eq!((mapping.data_field.as_str(), mapping.template_field.as_str()), ("件数", "PCS"));
    let sheet = SheetConfig::new("统计", vec![mapping, FieldMapping::new("a", "b")]);
    assert_eq!(sheet.sheet_name, "统计");
    assert_eq!(sheet.mappings.len(), 2);
    assert_eq!(sheet.mappings[1].template_field, "b");
}

#[test]
fn template_settings_are_found_and_replaced_by_carrier() {
    let custom = TemplateConfig {
        template_type: TemplateType::Dpd,
        template_path: Some("x.xlsx".to_string()),
        use_default: false,
    };
    let mut configs = vec![TemplateConfig::default_for_type(TemplateType::Ups)];
    let error = template_manager::get_config_for_type(
        vec![TemplateConfig::default_for_type(TemplateType::Ups)],
        &TemplateType::Dpd,
    )
    .unwrap_err();
    assert_eq!((error.code.as_str(), error.message.as_str()), ("ERROR", "找不到 dpd 模板的配置"));
    template_manager::save_config_for_type(&mut configs, custom.clone());
    assert_eq!(configs.len(), 2);
    template_manager::save_config_for_type(
        &mut configs,
        TemplateConfig { use_default: true, ..custom.clone() },
    );
    assert_eq!(configs.len(), 2);
    assert!(configs[1].use_default);
    template_manager::save_config_for_type(&mut configs, custom);
    configs.push(TemplateConfig::default_for_type(TemplateType::Dpd));
    let found = template_manager::get_config_for_type(configs, &TemplateType::Dpd).unwrap();
    assert_eq!(found.template_path.as_deref(), Some("x.xlsx"));
}

#[test]
fn forbidden_items_carry_the_prefixes_of_their_code() {
    let item = ForbiddenItem::new_v1("0101210000".into(), "horses".into(), "live".into());
    assert_eq!(item.hs_code, "0101210000");
    assert_eq!(item.hs_code_4, "0101");
    assert_eq!(item.hs_code_6, "010121");
    assert_eq!(item.hs_code_8, "01012100");
    assert_eq!(item.description, "horses");
    assert_eq!(item.additional_info, "live");
    assert_eq!(item.source_url, "");
    assert!(item.id.is_none() && item.created_at.is_none());
    assert!(item.raw_text.is_none() && item.has_exceptions.is_none());
    let short = ForbiddenItem::new_v1("01012".into(), String::new(), String::new());
    assert_eq!((short.hs_code_4.as_str(), short.hs_code_6.as_str(), short.hs_code_8.as_str()), ("0101", "01012", "01012"));
    assert_eq!(ForbiddenItem::prefix("abcdef", 3), "abc");
    assert_eq!(ForbiddenItem::prefix("ab", 3), "ab");
    assert_eq!(ForbiddenItem::prefix("é1", 2), "é");
}

#[test]
fn later_forbidden_items_mark_their_exceptions() {
    let code = HsCodeEntry {
        code: "01012100".into(),
        code_4: "0101".into(),
        code_6: "010121".into(),
        code_8: "01012100".into(),
        is_exception: false,
        parent_raw: "0101".into(),
    };
    let item = ForbiddenItem::new_v2(
        code.clone(),
        "0101 21 00".into(),
        true,
        "horses".into(),
        "info".into(),
        "https://example.com".into(),
    );
    assert_eq!(item.description, "horses [含例外]");
    assert_eq!(item.hs_code, "01012100");
    assert_eq!(item.hs_code_6, "010121");
    assert_eq!(item.raw_text.as_deref(), Some("0101 21 00"));
    assert_eq!(item.has_exceptions, Some(true));
    assert_eq!(item.source_url, "https://example.com");
    let plain = ForbiddenItem::new_v2(code, "r".into(), false, "horses".into(), "".into(), "".into());
    assert_eq!(plain.description, "horses");
    assert_eq!(plain.has_exceptions, Some(false));
}

#[test]
fn processors_keep_a_log() {
    let mut dpd = DpdProcessor::new();
    assert!(dpd.get_logs().is_empty());
    dpd.log("one".to_string());
    dpd.log("two".to_string());
    assert_eq!(dpd.get_logs(), vec!["one".to_string(), "two".to_string()]);
    let mut ups = UpsProcessor::new();
    assert!(ups.get_logs().is_empty());
    ups.log("only".to_string());
    assert_eq!(ups.get_logs(), vec!["only".to_string()]);
    assert_eq!(DpdProcessor::supported_countries(), vec!["DE", "FR", "IT", "ES", "NL", "PL", "CZ", "BE"]);
    let postcodes = DpdProcessor::de_special_postcodes();
    assert_eq!(postcodes.len(), 13);
    assert_eq!((postcodes[0], postcodes[12]), ("4347", "90451"));
}

#[test]
fn a_sheet_answers_for_cells_it_does_not_have() {
    let sheet = ExcelSheet {
        rows: vec![
            vec![
                SheetCell { text: Some("a".into()), amount: Some(150), blank: false },
                SheetCell { text: None, amount: None, blank: true },
            ],
            vec![SheetCell { text: Some("b".into()), amount: None, blank: false }],
        ],
        width: 3,
    };
    assert_eq!((sheet.row_count(), sheet.col_count()), (2, 3));
    assert_eq!(sheet.get_string(0, 0).as_deref(), Some("a"));
    assert_eq!(sheet.get_amount(0, 0), Some(150));
    assert_eq!(sheet.get_string(0, 1), None);
    assert!(sheet.is_empty(0, 1));
    assert!(!sheet.is_empty(1, 0));
    assert!(sheet.is_empty(1, 1));
    assert!(sheet.is_empty(2, 0));
    assert_eq!(sheet.get_amount(1, 0), None);
    assert!(sheet.get_cell(1, 1).is_none());
    assert_eq!(sheet.get_row(0), vec![Some("a".to_string()), None, None]);
    assert_eq!(sheet.get_row(1), vec![Some("b".to_string()), None, None]);
    assert_eq!(sheet.get_row(5), vec![None, None, None]);
    assert!(sheet.get_merged_ranges().is_empty());
    assert!(!sheet.is_well_formed());
    let square = ExcelSheet {
        rows: vec![vec![SheetCell { text: None, amount: None, blank: true }]],
        width: 1,
    };
    assert!(square.is_well_formed());
    assert!(ExcelSheet { rows: vec![], width: 7 }.is_well_formed());
    assert!(!ExcelSheet { rows: vec![vec![]], width: 1 }.is_well_formed());
}

#[test]
fn numerals_are_read_as_the_standard_library_reads_them() {
    let samples = [
        "0", "7", "+7", "-7", "007", "4294967295", "4294967296", "+", "-", "", "1 ", " 1", "1.0",
        "９", "9223372036854775807", "9223372036854775808", "-9223372036854775808",
        "-9223372036854775809", "--1", "+-1", "1e3", ".5", "5.", "inf", "nan", "1_0",
    ];
    for sample in samples {
        assert_eq!(parse_u32(sample), sample.parse::<u32>().ok(), "u32 {:?}", sample);
        assert_eq!(parse_i64(sample), sample.parse::<i64>().ok(), "i64 {:?}", sample);
        assert_eq!(is_decimal(sample), sample.parse::<f64>().is_ok(), "decimal {:?}", sample);
    }
    for n in [0u64, 9, 10, 99, 100, 12345, u64::MAX] {
        assert_eq!(u64_to_text(n), n.to_string());
    }
}

#[test]
fn text_is_compared_and_searched_by_characters() {
    assert!(str_eq("", ""));
    assert!(str_eq("héllo", "héllo"));
    assert!(!str_eq("a", "A"));
    assert!(!str_eq("a", "ab"));
    assert!(has_text("abcabc", "cab"));
    assert!(has_text("abc", ""));
    assert!(has_text("", ""));
    assert!(!has_text("abc", "abcd"));
    assert!(!has_text("abc", "ac"));
    assert!(starts_with("ID_1", "ID_"));
    assert!(starts_with("x", ""));
    assert!(!starts_with("xID_", "ID_"));
    assert!(!starts_with("ID", "ID_"));
}

#[test]
fn templates_map_data_columns_to_their_own() {
    let dpd = DpdProcessor::get_field_mappings();
    assert_eq!(dpd.entries.len(), 3);
    let list = dpd.get("运单清单").unwrap();
    assert_eq!(list.entries.len(), 8);
    assert_eq!(list.get("客户单号").map(String::as_str), Some("Remark\n（箱唛 or  FBA ）"));
    assert_eq!(list.get("收件人邮编").map(String::as_str), Some("post Code"));
    assert_eq!(dpd.get("子单号_detail").unwrap().get("子转单号").map(String::as_str), Some("子单号（必填）"));
    assert_eq!(dpd.get("子单号_list").unwrap().get("方数").map(String::as_str), Some("方数"));
    assert!(dpd.get("总结单").is_none());

    let ups = UpsProcessor::get_field_mappings();
    assert_eq!(ups.entries.len(), 5);
    assert_eq!(ups.get("总结单").unwrap().get("收货材积重").map(String::as_str), Some("V.G"));
    assert_eq!(
        ups.get("运单信息").unwrap().get("转单号").map(String::as_str),
        Some("UPS主运单号\n(Tracking Number)")
    );
    assert_eq!(ups.get("统计").unwrap().entries.len(), 4);
    assert_eq!(ups.get("德国邮编").unwrap().get("country").map(String::as_str), Some("country"));
    assert_eq!(ups.get("子单号").unwrap().entries.len(), 2);
}

#[test]
fn test_default_config() {
    let configs = vec![
        TemplateConfig::default_for_type(TemplateType::Ups),
        TemplateConfig::default_for_type(TemplateType::Dpd),
    ];

    assert_eq!(configs.len(), 2);
    assert!(configs[0].use_default);
    assert!(configs[1].use_default);
}

#[test]
fn the_template_to_fill_follows_the_settings() {
    let built_in = TemplateConfig::default_for_type(TemplateType::Ups);
    assert!(matches!(template_manager::get_template_path(&built_in, false), Ok(TemplateChoice::BuiltIn)));
    let custom = TemplateConfig {
        template_type: TemplateType::Ups,
        template_path: Some("mine.xlsx".to_string()),
        use_default: false,
    };
    assert!(matches!(
        template_manager::get_template_path(&custom, true),
        Ok(TemplateChoice::Custom(path)) if path == "mine.xlsx"
    ));
    let error = template_manager::get_template_path(&custom, false).unwrap_err();
    assert_eq!((error.code.as_str(), error.message.as_str()), ("ERROR", "自定义模板文件不存在: mine.xlsx"));
    let ignored = TemplateConfig { use_default: true, ..custom.clone() };
    assert!(matches!(template_manager::get_template_path(&ignored, false), Ok(TemplateChoice::BuiltIn)));
    let unset = TemplateConfig { template_path: None, ..custom };
    assert!(matches!(template_manager::get_template_path(&unset, true), Ok(TemplateChoice::BuiltIn)));
    assert_eq!(template_manager::get_default_template_name(&TemplateType::Ups), "UPS总结单模板.xlsx");
    assert_eq!(template_manager::get_default_template_name(&TemplateType::Dpd), "DPD数据预报模板.xlsx");
}

#[test]
fn scraper_errors_say_what_went_wrong() {
    assert_eq!(ScraperError::NetworkError("timeout".into()).message(), "网络错误: timeout");
    assert_eq!(ScraperError::ParseError("no table".into()).message(), "解析错误: no table");
    assert_eq!(ScraperError::NotFound.message(), "商品不存在 (404)");
    assert_eq!(ScraperError::DatabaseError("locked".into()).message(), "数据库错误: locked");
}

#[test]
fn processors_that_fill_in_place_share_the_same_tables() {
    let mut dpd = DpdProcessorV2::new();
    dpd.log("x".to_string());
    assert_eq!(dpd.get_logs(), vec!["x".to_string()]);
    assert_eq!(DpdProcessorV2::get_de_special_postcodes(), DpdProcessor::de_special_postcodes());
    assert_eq!(DpdProcessorV2::get_list_field_mappings().get("件数").map(String::as_str), Some("PCS"));
    assert_eq!(DpdProcessorV2::get_list_field_mappings().entries.len(), 8);
    assert_eq!(
        DpdProcessorV2::get_sub_order_detail_mappings().get("客户单号").map(String::as_str),
        Some("参考号 （必填）")
    );
    assert_eq!(DpdProcessorV2::get_sub_order_list_mappings().entries.len(), 4);

    let ups = UpsProcessorV2::new();
    assert!(ups.get_logs().is_empty());
    assert_eq!(UpsProcessorV2::get_summary_field_mappings().entries.len(), 6);
    assert_eq!(
        UpsProcessorV2::get_waybill_field_mappings().get("柜号").map(String::as_str),
        Some("提单号（集装箱/空运）")
    );
    assert_eq!(
        UpsProcessorV2::get_sub_order_field_mappings().get("子转单号").map(String::as_str),
        Some("UPS 子单号\n(Tracking Number)")
    );

    let headers = |names: &[&str]| names.iter().map(|n| n.to_string()).collect::<Vec<_>>();
    assert_eq!(ExcelProcessor::find_hs_code_column(&headers(&["Name", "HS Code", "Code"])), Some(1));
    assert_eq!(ExcelProcessor::find_hs_code_column(&headers(&["名称", "商品编码"])), Some(1));
    assert_eq!(ExcelProcessor::find_hs_code_column(&headers(&["oaths"])), Some(0));
    assert_eq!(ExcelProcessor::find_hs_code_column(&headers(&["Name", "Weight"])), None);
    assert_eq!(ExcelProcessor::find_hs_code_column(&headers(&[])), None);
}
