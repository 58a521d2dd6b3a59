use crate::text::{digits, push_chars, push_str, same_text, spec_digits, string_of};
use crate::types::{DownloadFormat, ProxyMode};
use vstd::prelude::*;

verus! {

/// The settings of the downloader.
#[derive(Debug)]
pub struct Config {
    pub download_dir: String,
    pub export_dir: String,
    pub enable_file_logger: bool,
    pub download_format: DownloadFormat,
    pub dir_fmt: String,
    pub proxy_host: String,
    pub proxy_mode: ProxyMode,
    pub proxy_port: u16,
}

/// What has to follow when new settings are saved.
#[derive(Debug, Clone, Copy, PartialEq, Eq, Structural)]
pub struct ConfigChange {
    /// The HTTP clients are to be made anew.
    pub reload_clients: bool,
    /// The file logger is to be switched on (`true`) or off (`false`).
    pub file_logger: Option<bool>,
}

impl Config {
    /// The settings of a first start: downloads and exports in the given
    /// directories, the file logger on, the format Webp, the directory name
    /// `{title} - {id}`, and the system's proxy with `127.0.0.1:7890` as the
    /// custom one.
    pub fn default(download_dir: String, export_dir: String) -> (config: Config)
        ensures
            config.download_dir == download_dir,
            config.export_dir == export_dir,
            config.enable_file_logger,
            config.download_format == DownloadFormat::Webp,
            config.dir_fmt@ == "{title} - {id}"@,
            config.proxy_mode == ProxyMode::System,
            config.proxy_host@ == "127.0.0.1"@,
            config.proxy_port == 7890,
    {
        Config {
            download_dir,
            export_dir,
            enable_file_logger: true,
            download_format: DownloadFormat::Webp,
            dir_fmt: String::from_str("{title} - {id}"),
            proxy_mode: ProxyMode::System,
            proxy_host: String::from_str("127.0.0.1"),
            proxy_port: 7890,
        }
    }

    /// The proxy settings of the two differ.
    pub open spec fn proxy_differs(&self, other: &Config) -> bool {
        self.proxy_mode != other.proxy_mode || self.proxy_host@ != other.proxy_host@
            || self.proxy_port != other.proxy_port
    }

    /// What has to follow when `new` takes the place of these settings: the
    /// clients are made anew where the proxy settings differ, and the file
    /// logger is switched where its setting differs.
    pub fn changes(&self, new: &Config) -> (change: ConfigChange)
        ensures
            change.reload_clients == self.proxy_differs(new),
            change.file_logger == if self.enable_file_logger != new.enable_file_logger {
                Some(new.enable_file_logger)
            } else {
                None
            },
    {
        let reload_clients = self.proxy_mode != new.proxy_mode || !same_text(
            self.proxy_host.as_str(),
            new.proxy_host.as_str(),
        ) || self.proxy_port != new.proxy_port;
        let file_logger = if self.enable_file_logger != new.enable_file_logger {
            Some(new.enable_file_logger)
        } else {
            None
        };
        ConfigChange { reload_clients, file_logger }
    }

    /// The address of the custom proxy: `http://`, the host, a colon and
    /// the port.
    pub open spec fn spec_proxy_url(&self) -> Seq<char> {
        "http://"@ + self.proxy_host@ + seq![':'] + spec_digits(self.proxy_port as nat)
    }

    /// The address of the custom proxy.
    pub fn proxy_url(&self) -> (url: String)
        ensures
            url@ == self.spec_proxy_url(),
    {
        let mut url: Vec<char> = Vec::new();
        push_str(&mut url, "http://");
        push_str(&mut url, self.proxy_host.as_str());
        url.push(':');
        let port = digits(self.proxy_port as u64);
        push_chars(&mut url, port.as_slice());
        assert(url@ =~= self.spec_proxy_url());
        string_of(url.as_slice())
    }
}

} // verus!
