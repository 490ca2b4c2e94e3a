//! What reading a tariff page can give, and how it can fail.

use vstd::prelude::*;

verus! {

/// Why a tariff could not be fetched or stored.
#[derive(Debug)]
pub enum ScraperError {
    NetworkError(String),
    ParseError(String),
    /// The page for the commodity does not exist.
    NotFound,
    DatabaseError(String),
}

impl ScraperError {
    /// The text shown for this error.
    pub open spec fn message_text(self) -> Seq<char> {
        match self {
            ScraperError::NetworkError(why) => "网络错误: "@ + why@,
            ScraperError::ParseError(why) => "解析错误: "@ + why@,
            ScraperError::NotFound => "商品不存在 (404)"@,
            ScraperError::DatabaseError(why) => "数据库错误: "@ + why@,
        }
    }

    /// Renders the error as `message_text` says.
    pub fn message(&self) -> (text: String)
        ensures
            text@ == self.message_text(),
    {
        match self {
            ScraperError::NetworkError(why) => String::from_str("网络错误: ").concat(why.as_str()),
            ScraperError::ParseError(why) => String::from_str("解析错误: ").concat(why.as_str()),
            ScraperError::NotFound => String::from_str("商品不存在 (404)"),
            ScraperError::DatabaseError(why) => String::from_str("数据库错误: ").concat(
                why.as_str(),
            ),
        }
    }
}

/// What a tariff page says about a commodity, as far as it could be read.
#[derive(Debug, Clone)]
pub struct ParsedTariff {
    pub code: Option<String>,
    pub description: Option<String>,
    pub rate: Option<String>,
    pub other_rate: Option<String>,
    /// The anti-dumping duty rate.
    pub anti_dumping_rate: Option<String>,
    /// The countervailing duty rate.
    pub countervailing_rate: Option<String>,
}

} // verus!
