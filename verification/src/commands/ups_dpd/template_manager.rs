//! Which template each carrier uses.

use crate::commands::error::{CommandError, ErrorModel};
use crate::models::ups_dpd::{TemplateConfig, TemplateType};
use vstd::prelude::*;

verus! {

/// The index of the first configuration for `kind`, or the length of the list.
pub open spec fn position_of_type(configs: Seq<TemplateConfig>, kind: TemplateType) -> int
    decreases configs.len(),
{
    if configs.len() == 0 {
        0
    } else if configs[0].template_type == kind {
        0
    } else {
        1 + position_of_type(configs.skip(1), kind)
    }
}

/// Where the first configuration for a carrier stands is where none before it is
/// for that carrier.
pub proof fn lemma_position_of_type(configs: Seq<TemplateConfig>, kind: TemplateType, at: int)
    requires
        0 <= at <= configs.len(),
        forall|k: int| 0 <= k < at ==> configs[k].template_type != kind,
        at < configs.len() ==> configs[at].template_type == kind,
    ensures
        position_of_type(configs, kind) == at,
    decreases configs.len(),
{
    if configs.len() > 0 && at > 0 {
        assert(configs[0].template_type != kind);
        let rest = configs.skip(1);
        assert forall|k: int| 0 <= k < at - 1 implies rest[k].template_type != kind by {
            assert(rest[k] == configs[k + 1]);
        }
        lemma_position_of_type(rest, kind, at - 1);
    }
}

/// The index of the first configuration for `kind`.
fn find_type(configs: &Vec<TemplateConfig>, kind: TemplateType) -> (at: usize)
    ensures
        at == position_of_type(configs@, kind),
        at <= configs@.len(),
{
    let mut at: usize = 0;
    while at < configs.len() && configs[at].template_type != kind
        invariant
            at <= configs@.len(),
            forall|k: int| 0 <= k < at ==> configs@[k].template_type != kind,
        decreases configs@.len() - at,
    {
        at += 1;
    }
    proof {
        lemma_position_of_type(configs@, kind, at as int);
    }
    at
}

/// The message for a carrier that has no configuration.
pub open spec fn missing_config_text(kind: TemplateType) -> Seq<char> {
    "找不到 "@ + kind.label() + " 模板的配置"@
}

/// The first configuration among `configs` that is for the carrier
/// `template_type`; an error with code `ERROR` where there is none.
pub fn get_config_for_type(configs: Vec<TemplateConfig>, template_type: &TemplateType) -> (found:
    Result<TemplateConfig, CommandError>)
    ensures
        match found {
            Ok(config) => position_of_type(configs@, *template_type) < configs@.len() && config
                == configs@[position_of_type(configs@, *template_type)],
            Err(error) => position_of_type(configs@, *template_type) == configs@.len() && error@
                == (ErrorModel { message: missing_config_text(*template_type), code: "ERROR"@ }),
        },
{
    let at = find_type(&configs, *template_type);
    if at < configs.len() {
        let mut configs = configs;
        Ok(configs.swap_remove(at))
    } else {
        let mut message = String::from_str("找不到 ");
        message.append(template_type.to_string().as_str());
        message.append(" 模板的配置");
        Err(CommandError::new(message.as_str(), "ERROR"))
    }
}

/// Puts `config` among `configs`: in place of the first configuration for
/// its carrier, or at the end where there is none.
pub fn save_config_for_type(configs: &mut Vec<TemplateConfig>, config: TemplateConfig)
    ensures
        final(configs)@ == (if position_of_type(old(configs)@, config.template_type) < old(
            configs,
        )@.len() {
            old(configs)@.update(position_of_type(old(configs)@, config.template_type), config)
        } else {
            old(configs)@.push(config)
        }),
{
    let at = find_type(configs, config.template_type);
    if at < configs.len() {
        configs.set(at, config);
    } else {
        configs.push(config);
    }
}

/// Which template file to fill.
#[derive(Debug)]
pub enum TemplateChoice {
    /// The template that ships with the program.
    BuiltIn,
    /// The user's own template, at this path.
    Custom(String),
}

/// The file name of the template that ships with the program for a carrier.
pub open spec fn built_in_template(kind: TemplateType) -> Seq<char> {
    match kind {
        TemplateType::Ups => "UPS总结单模板.xlsx"@,
        TemplateType::Dpd => "DPD数据预报模板.xlsx"@,
    }
}

/// The file name of the template that ships with the program for a carrier.
pub fn get_default_template_name(template_type: &TemplateType) -> (name: &'static str)
    ensures
        name@ == built_in_template(*template_type),
{
    match template_type {
        TemplateType::Ups => "UPS总结单模板.xlsx",
        TemplateType::Dpd => "DPD数据预报模板.xlsx",
    }
}

/// The template to fill under `config`, `custom_exists` telling whether
/// the user's own template file is there: the built-in one if the
/// configuration asks for it or names no file, else the user's own, whose
/// absence is an error with code `ERROR`.
pub fn get_template_path(config: &TemplateConfig, custom_exists: bool) -> (choice: Result<
    TemplateChoice,
    CommandError,
>)
    ensures
        match choice {
            Ok(TemplateChoice::BuiltIn) => config.use_default || config.template_path is None,
            Ok(TemplateChoice::Custom(path)) => !config.use_default && custom_exists
                && config.template_path == Some(path),
            Err(error) => !config.use_default && !custom_exists && config.template_path is Some
                && error@ == (ErrorModel {
                message: "自定义模板文件不存在: "@ + config.template_path->Some_0@,
                code: "ERROR"@,
            }),
        },
{
    if config.use_default {
        return Ok(TemplateChoice::BuiltIn);
    }
    match &config.template_path {
        Some(path) => {
            if custom_exists {
                Ok(TemplateChoice::Custom(path.clone()))
            } else {
                Err(CommandError::with_reason("自定义模板文件不存在: ", path.as_str(), "ERROR"))
            }
        },
        None => Ok(TemplateChoice::BuiltIn),
    }
}

} // verus!
