//! Records of the marketplace and content sources that the cache carries.
use vstd::prelude::*;

use crate::text::same_text;

verus! {

/// Descriptive metadata of a token.
#[derive(Debug, Clone)]
pub struct TokenMetadata {
    pub description: Option<String>,
    pub logo_url: Option<String>,
    pub banner_url: Option<String>,
    pub contacts: Option<Vec<String>>,
    pub socials: Option<TokenSocials>,
}

/// Social links of a token.
#[derive(Debug, Clone)]
pub struct TokenSocials {
    pub website: Option<String>,
    pub discord: Option<String>,
    pub telegram: Option<String>,
    pub x: Option<String>,
    pub github: Option<String>,
    pub medium: Option<String>,
    pub reddit: Option<String>,
    pub whitepaper: Option<String>,
    pub audit: Option<String>,
    pub contract: Option<String>,
}

/// The logo of a token.
#[derive(Debug, Clone)]
pub struct TokenLogo {
    pub ticker: String,
    pub logo: String,
}

/// Tickers that have open orders.
#[derive(Debug, Clone)]
pub struct OpenOrdersResponse {
    pub tickers: Vec<String>,
}

/// One mint of an NFT.
#[derive(Debug, Clone)]
pub struct NftMint {
    pub ticker: String,
    pub token_id: String,
    pub minter_address: String,
    pub timestamp: i64,
    pub metadata_uri: String,
}

/// Trade totals of the name service.
#[derive(Debug, Clone)]
pub struct KnsTradeStatsResponse {
    pub total_trades_kaspiano: i64,
    pub total_volume_kas_kaspiano: String,
    pub total_volume_usd_kaspiano: String,
}

/// Metadata of one NFT.
#[derive(Debug, Clone)]
pub struct NftMetadata {
    pub image: String,
    pub name: String,
    pub description: Option<String>,
    pub attributes: Vec<NftAttribute>,
}

/// One trait of an NFT.
#[derive(Debug, Clone)]
pub struct NftAttribute {
    pub trait_type: String,
    pub value: String,
}

/// A holder of an NFT collection, with the number of items held.
#[derive(Debug, Clone)]
pub struct CollectionHolder {
    pub owner: String,
    pub count: i64,
}

/// A repository that content may be served from.
#[derive(Debug, Clone, PartialEq)]
pub struct RepoConfig {
    pub source: String,
    pub owner: String,
    pub repo: String,
}

/// A file, or an entry of a directory listing, of a content source.
#[derive(Debug, Clone)]
pub struct Content {
    pub name: String,
    pub path: String,
    pub item_type: ContentType,
    /// Base64 text of a file's content.
    pub content: Option<String>,
    pub encoding: Option<String>,
    pub html_url: Option<String>,
    pub download_url: Option<String>,
    pub url: String,
}

/// Kind of a content item.
#[derive(Debug, Clone, Copy, PartialEq, Eq, Structural)]
pub enum ContentType {
    File,
    Dir,
    Unknown,
}

/// The kind named by `s`: "file", "dir", or anything else.
pub open spec fn content_type_of(s: Seq<char>) -> ContentType {
    if s == "file"@ {
        ContentType::File
    } else if s == "dir"@ {
        ContentType::Dir
    } else {
        ContentType::Unknown
    }
}

impl From<String> for ContentType {
    fn from(s: String) -> (r: Self)
        ensures
            r == content_type_of(s@),
    {
        if same_text(s.as_str(), "file") {
            ContentType::File
        } else if same_text(s.as_str(), "dir") {
            ContentType::Dir
        } else {
            ContentType::Unknown
        }
    }
}

impl vstd::std_specs::convert::FromSpecImpl<String> for ContentType {
    open spec fn obeys_from_spec() -> bool {
        true
    }

    open spec fn from_spec(v: String) -> Self {
        content_type_of(v@)
    }
}

} // verus!
