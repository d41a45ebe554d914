//! What the program decides before it starts a client or a server: which file format to
//! read, which mode to run, which values of the file replace those of the command line.

use crate::config::{addr_is_unset, is_unset_addr};
use crate::protocol::LocalProtocol;
use crate::text::{chars_of, contains_text, find_text, is_word};
use crate::tunnel::LocalToRemote;
use crate::weburl::ParsedUrl;
use vstd::prelude::*;
use vstd::string::StringExecFns;

verus! {

/// The formats of a configuration file.
#[derive(Clone, Copy, Debug, PartialEq, Eq, Hash, Structural)]
pub enum ConfigFormat {
    Yaml,
    Toml,
    Json,
}

/// The format of the file with the extension `extension`: TOML for `toml`, JSON for
/// `json`, and YAML for `yaml`, `yml`, any other extension and none.
pub open spec fn format_of_extension(extension: Option<Seq<char>>) -> ConfigFormat {
    match extension {
        Some(e) => if e == "toml"@ {
            ConfigFormat::Toml
        } else if e == "json"@ {
            ConfigFormat::Json
        } else {
            ConfigFormat::Yaml
        },
        None => ConfigFormat::Yaml,
    }
}

/// The format to read a configuration file in, by its extension.
pub fn config_format(extension: Option<&str>) -> (format: ConfigFormat)
    ensures
        format == format_of_extension(
            match extension {
                Some(e) => Some(e@),
                None => None,
            },
        ),
{
    match extension {
        Some(e) => {
            let e = chars_of(e);
            if is_word(&e, "toml") {
                ConfigFormat::Toml
            } else if is_word(&e, "json") {
                ConfigFormat::Json
            } else {
                ConfigFormat::Yaml
            }
        },
        None => ConfigFormat::Yaml,
    }
}

/// What the program runs as.
#[derive(Clone, Copy, Debug, PartialEq, Eq, Hash, Structural)]
pub enum Mode {
    Client,
    Server,
}

/// Why a configuration file gives no mode.
#[derive(Clone, Debug, PartialEq, Eq)]
pub enum ModeError {
    /// The mode is `client` and the file has no client section.
    ClientMissing,
    /// The mode is `server` and the file has no server section.
    ServerMissing,
    /// The mode is neither `client` nor `server`.
    UnknownMode(String),
    /// No mode is given and the file has both sections.
    BothSections,
    /// No mode is given and the file has neither section.
    NoSection,
}

/// A [`ModeError`] with its string as a text.
pub enum ModeErrorView {
    ClientMissing,
    ServerMissing,
    UnknownMode(Seq<char>),
    BothSections,
    NoSection,
}

impl View for ModeError {
    type V = ModeErrorView;

    open spec fn view(&self) -> ModeErrorView {
        match *self {
            ModeError::ClientMissing => ModeErrorView::ClientMissing,
            ModeError::ServerMissing => ModeErrorView::ServerMissing,
            ModeError::UnknownMode(m) => ModeErrorView::UnknownMode(m@),
            ModeError::BothSections => ModeErrorView::BothSections,
            ModeError::NoSection => ModeErrorView::NoSection,
        }
    }
}

impl ModeErrorView {
    /// The message for the user.
    pub open spec fn text(self) -> Seq<char> {
        match self {
            ModeErrorView::ClientMissing => {
                "Config file specifies mode='client' but no client configuration found"@
            },
            ModeErrorView::ServerMissing => {
                "Config file specifies mode='server' but no server configuration found"@
            },
            ModeErrorView::UnknownMode(mode) => "Invalid mode '"@ + mode
                + "' in config file. Must be 'client' or 'server'"@,
            ModeErrorView::BothSections => {
                "Config file contains both client and server sections. Please specify mode in config file or use subcommand (client/server)"@
            },
            ModeErrorView::NoSection => {
                "Config file does not contain client or server configuration"@
            },
        }
    }
}

impl ModeError {
    /// The message for the user.
    pub fn message(&self) -> (out: String)
        ensures
            out@ == self@.text(),
    {
        match self {
            ModeError::ClientMissing => {
                "Config file specifies mode='client' but no client configuration found".to_owned()
            },
            ModeError::ServerMissing => {
                "Config file specifies mode='server' but no server configuration found".to_owned()
            },
            ModeError::UnknownMode(mode) => {
                let mut out: String = "Invalid mode '".to_owned();
                out.append(mode.as_str());
                out.append("' in config file. Must be 'client' or 'server'");
                out
            },
            ModeError::BothSections => {
                "Config file contains both client and server sections. Please specify mode in config file or use subcommand (client/server)".to_owned()
            },
            ModeError::NoSection => {
                "Config file does not contain client or server configuration".to_owned()
            },
        }
    }
}

/// The mode that a configuration file gives where the command line names none.
///
/// A mode that the file names is taken where the file has the section for it. Where the
/// file names none, the mode is the one whose section is the only one in the file.
pub open spec fn mode_of_file(
    mode: Option<Seq<char>>,
    has_client: bool,
    has_server: bool,
) -> Result<Mode, ModeErrorView> {
    match mode {
        Some(m) => if m == "client"@ {
            if has_client {
                Ok(Mode::Client)
            } else {
                Err(ModeErrorView::ClientMissing)
            }
        } else if m == "server"@ {
            if has_server {
                Ok(Mode::Server)
            } else {
                Err(ModeErrorView::ServerMissing)
            }
        } else {
            Err(ModeErrorView::UnknownMode(m))
        },
        None => if has_client && !has_server {
            Ok(Mode::Client)
        } else if has_server && !has_client {
            Ok(Mode::Server)
        } else if has_client && has_server {
            Err(ModeErrorView::BothSections)
        } else {
            Err(ModeErrorView::NoSection)
        },
    }
}

/// Picks the mode to run in from a configuration file.
pub fn select_mode(mode: Option<&str>, has_client: bool, has_server: bool) -> (res: Result<
    Mode,
    ModeError,
>)
    ensures
        match mode_of_file(
            match mode {
                Some(m) => Some(m@),
                None => None,
            },
            has_client,
            has_server,
        ) {
            Ok(m) => res == Ok::<Mode, ModeError>(m),
            Err(e) => res matches Err(x) && x@ == e,
        },
{
    match mode {
        Some(m) => {
            let word = chars_of(m);
            if is_word(&word, "client") {
                if has_client {
                    Ok(Mode::Client)
                } else {
                    Err(ModeError::ClientMissing)
                }
            } else if is_word(&word, "server") {
                if has_server {
                    Ok(Mode::Server)
                } else {
                    Err(ModeError::ServerMissing)
                }
            } else {
                Err(ModeError::UnknownMode(m.to_owned()))
            }
        },
        None => {
            if has_client && !has_server {
                Ok(Mode::Client)
            } else if has_server && !has_client {
                Ok(Mode::Server)
            } else if has_client && has_server {
                Err(ModeError::BothSections)
            } else {
                Err(ModeError::NoSection)
            }
        },
    }
}

/// The log level to use: that of the file where the command line has the default,
/// `INFO`, and the file has one; else that of the command line.
pub fn merge_log_level(cli: String, file: Option<String>) -> (level: String)
    ensures
        level == match file {
            Some(f) => if cli@ == "INFO"@ {
                f
            } else {
                cli
            },
            None => cli,
        },
{
    match file {
        Some(f) => {
            if is_word(&chars_of(cli.as_str()), "INFO") {
                f
            } else {
                cli
            }
        },
        None => cli,
    }
}

/// Whether colors are switched off: the value of the command line where it has one;
/// else `1` where the file switches them off.
pub fn merge_no_color(cli: Option<String>, file: Option<bool>) -> (no_color: Option<String>)
    ensures
        match cli {
            Some(_) => no_color == cli,
            None => match file {
                Some(true) => no_color matches Some(one) && one@ == "1"@,
                _ => no_color is None,
            },
        },
{
    match cli {
        Some(value) => Some(value),
        None => match file {
            Some(true) => Some("1".to_owned()),
            _ => None,
        },
    }
}

/// Whether no address was configured: the address is absent or the default one, and no
/// configuration file had the section that would hold it.
pub fn is_remote_addr_missing(
    addr: &Option<ParsedUrl>,
    default_text: &str,
    file_has_section: bool,
) -> (r: bool)
    ensures
        r == (is_unset_addr(*addr, default_text@) && !file_has_section),
{
    addr_is_unset(addr, default_text) && !file_has_section
}

/// Whether the log level says nothing of the HTTP/2 library, so that the logs of its
/// codec are switched off: it holds neither `h2::` nor `h2=`.
pub fn silences_h2_codec(log_level: &str) -> (r: bool)
    ensures
        r == !(contains_text(log_level@, "h2::"@) || contains_text(log_level@, "h2="@)),
{
    let level = chars_of(log_level);
    let path = chars_of("h2::");
    let assign = chars_of("h2=");
    proof {
        reveal_strlit("h2::");
        reveal_strlit("h2=");
    }
    !(find_text(&level, &path) < level.len() || find_text(&level, &assign) < level.len())
}

/// Whether one of `tunnels` speaks on the standard input and output of the program, so
/// that the logs must go elsewhere.
pub fn uses_stdio(tunnels: &Vec<LocalToRemote>) -> (r: bool)
    ensures
        r == exists|i: int|
            0 <= i < tunnels@.len() && (#[trigger] tunnels@[i]).local_protocol@ is Stdio,
{
    let mut i: usize = 0;
    while i < tunnels.len()
        invariant
            i <= tunnels.len(),
            forall|j: int| 0 <= j < i ==> !((#[trigger] tunnels@[j]).local_protocol@ is Stdio),
        decreases tunnels.len() - i,
    {
        match &tunnels[i].local_protocol {
            LocalProtocol::Stdio { .. } => {
                return true;
            },
            _ => {},
        }
        i += 1;
    }
    false
}

} // verus!
