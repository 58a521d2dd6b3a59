pub mod comic;
pub mod comic_info;
pub mod download_format;
pub mod proxy_mode;
pub mod search_result;

pub use comic::{Comic, DirNameFmtParams, DownloadedEntry, Language, Tag};
pub use comic_info::ComicInfo;
pub use download_format::DownloadFormat;
pub use proxy_mode::ProxyMode;
pub use search_result::SearchResult;
