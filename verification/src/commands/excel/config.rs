//! The column settings of each layout, kept by the layout's label.

use crate::commands::error::{CommandError, ErrorModel};
use crate::models::excel::{ProcessConfig, ProcessType};
use crate::text_map::TextMap;
use vstd::prelude::*;

verus! {

/// The settings that every layout starts with, by label.
pub open spec fn default_configs() -> Map<Seq<char>, ProcessConfig> {
    Map::<Seq<char>, ProcessConfig>::empty().insert(
        "sea-rail-with-image"@,
        ProcessConfig::default_of(ProcessType::SeaRailWithImage),
    ).insert(
        "sea-rail-no-image"@,
        ProcessConfig::default_of(ProcessType::SeaRailNoImage),
    ).insert("air-freight"@, ProcessConfig::default_of(ProcessType::AirFreight))
}

/// The settings that every layout starts with.
pub fn get_default_configs() -> (configs: TextMap<ProcessConfig>)
    ensures
        configs@ == default_configs(),
{
    let mut configs: TextMap<ProcessConfig> = TextMap::new();
    configs.insert(
        String::from_str("sea-rail-with-image"),
        ProcessConfig::default_for_type(ProcessType::SeaRailWithImage),
    );
    configs.insert(
        String::from_str("sea-rail-no-image"),
        ProcessConfig::default_for_type(ProcessType::SeaRailNoImage),
    );
    configs.insert(
        String::from_str("air-freight"),
        ProcessConfig::default_for_type(ProcessType::AirFreight),
    );
    configs
}

/// The message for a label that names no layout.
pub open spec fn unknown_type_text(label: Seq<char>) -> Seq<char> {
    "未知的处理类型: "@ + label
}

/// The settings kept under the label `process_type`; where none are kept,
/// the settings that the layout of that label starts with; and a
/// `CONFIG_ERROR` where the label names no layout either.
pub fn load_config_for_type(configs: &TextMap<ProcessConfig>, process_type: &str) -> (config:
    Result<ProcessConfig, CommandError>)
    ensures
        match config {
            Ok(c) => if configs@.contains_key(process_type@) {
                c == configs@[process_type@]
            } else {
                ProcessType::of_label(process_type@) is Some && c == ProcessConfig::default_of(
                    ProcessType::of_label(process_type@)->Some_0,
                )
            },
            Err(e) => !configs@.contains_key(process_type@) && ProcessType::of_label(
                process_type@,
            ) is None && e@ == (ErrorModel {
                message: unknown_type_text(process_type@),
                code: "CONFIG_ERROR"@,
            }),
        },
{
    match configs.get(process_type) {
        Some(config) => Ok(*config),
        None => match ProcessType::from_string(process_type) {
            Some(kind) => Ok(ProcessConfig::default_for_type(kind)),
            None => Err(CommandError::with_reason("未知的处理类型: ", process_type, "CONFIG_ERROR")),
        },
    }
}

/// Keeps `config` under the label of its layout, in place of what was kept there.
pub fn save_config_for_type(configs: &mut TextMap<ProcessConfig>, config: &ProcessConfig)
    ensures
        final(configs)@ == old(configs)@.insert(config.process_type.label(), *config),
{
    configs.insert(config.process_type.to_string(), *config);
}

} // verus!
