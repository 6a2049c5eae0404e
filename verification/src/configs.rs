//! Server configuration: the settings the server starts with and a builder
//! that overlays explicit choices on the defaults.

use vstd::prelude::*;

use crate::strutil::str_eq;

verus! {

/// How much the server logs, from errors only up to tracing.
#[derive(PartialEq, Eq, Structural, Clone, Copy, Debug)]
pub enum LogLevel {
    Error,
    Warn,
    Info,
    Debug,
    Trace,
}

/// The log level a spelling names; anything unrecognized means `Info`.
pub open spec fn log_level_of(s: Seq<char>) -> LogLevel {
    if s == "error"@ {
        LogLevel::Error
    } else if s == "warn"@ {
        LogLevel::Warn
    } else if s == "debug"@ {
        LogLevel::Debug
    } else if s == "trace"@ {
        LogLevel::Trace
    } else {
        LogLevel::Info
    }
}

/// The settings the server runs with.
#[derive(Clone, Debug)]
pub struct ServerConfigs {
    pub base_dir: String,
    pub host: String,
    pub port: u16,
    pub log_level: LogLevel,
    pub workers: usize,
}

/// The default settings a [`ServerConfigs`] value carries before anything
/// overrides them.
pub open spec fn is_default_configs(c: ServerConfigs) -> bool {
    &&& c.base_dir@ == "./"@
    &&& c.host@ == "127.0.0.1"@
    &&& c.port == 8080
    &&& c.log_level == LogLevel::Info
    &&& c.workers == 2
}

impl Default for ServerConfigs {
    /// Serve the current directory on `127.0.0.1:8080` with two workers,
    /// logging at `Info`.
    fn default() -> (c: Self)
        ensures
            is_default_configs(c),
    {
        let base_dir = "./";
        let host = "127.0.0.1";
        ServerConfigs {
            base_dir: base_dir.to_owned(),
            host: host.to_owned(),
            port: 8080,
            log_level: LogLevel::Info,
            workers: 2,
        }
    }
}

impl ServerConfigs {
    /// A builder with nothing chosen yet.
    pub fn builder() -> (b: ServerConfigsBuilder)
        ensures
            b.base_dir is None,
            b.host is None,
            b.port is None,
            b.log_level is None,
            b.workers is None,
    {
        ServerConfigsBuilder { base_dir: None, host: None, port: None, log_level: None, workers: None }
    }
}

/// Collects explicit configuration choices; [`ServerConfigsBuilder::build`]
/// fills everything left unchosen from the defaults.
#[derive(Clone, Debug)]
pub struct ServerConfigsBuilder {
    pub base_dir: Option<String>,
    pub host: Option<String>,
    pub port: Option<u16>,
    pub log_level: Option<LogLevel>,
    pub workers: Option<usize>,
}

impl ServerConfigsBuilder {
    /// Chooses the directory to serve.
    pub fn base_dir(&mut self, path: &String)
        ensures
            *final(self) == (ServerConfigsBuilder { base_dir: Some(*path), ..*old(self) }),
    {
        self.base_dir = Some(path.clone());
    }

    /// Chooses the host address to bind.
    pub fn host(&mut self, host: &str)
        ensures
            (final(self).host matches Some(h) && h@ == host@),
            *final(self) == (ServerConfigsBuilder { host: final(self).host, ..*old(self) }),
    {
        self.host = Some(host.to_owned());
    }

    /// Chooses the port to bind.
    pub fn port(&mut self, port: u16)
        ensures
            *final(self) == (ServerConfigsBuilder { port: Some(port), ..*old(self) }),
    {
        self.port = Some(port);
    }

    /// Chooses the log level by its spelling; an unrecognized spelling means
    /// `Info`.
    pub fn log_level(&mut self, log_level: &str)
        ensures
            *final(self) == (ServerConfigsBuilder {
                log_level: Some(log_level_of(log_level@)),
                ..*old(self)
            }),
    {
        let level = if str_eq(log_level, "error") {
            LogLevel::Error
        } else if str_eq(log_level, "warn") {
            LogLevel::Warn
        } else if str_eq(log_level, "debug") {
            LogLevel::Debug
        } else if str_eq(log_level, "trace") {
            LogLevel::Trace
        } else {
            LogLevel::Info
        };
        self.log_level = Some(level);
    }

    /// Chooses how many worker threads serve requests.
    pub fn workers(&mut self, workers: usize)
        ensures
            *final(self) == (ServerConfigsBuilder { workers: Some(workers), ..*old(self) }),
    {
        self.workers = Some(workers);
    }

    /// The configuration made of every chosen value, with the default for
    /// everything left unchosen.
    pub fn build(self) -> (c: ServerConfigs)
        ensures
            match self.base_dir {
                Some(b) => c.base_dir == b,
                None => c.base_dir@ == "./"@,
            },
            match self.host {
                Some(h) => c.host == h,
                None => c.host@ == "127.0.0.1"@,
            },
            c.port == (match self.port {
                Some(p) => p,
                None => 8080u16,
            }),
            c.log_level == (match self.log_level {
                Some(l) => l,
                None => LogLevel::Info,
            }),
            c.workers == (match self.workers {
                Some(w) => w,
                None => 2usize,
            }),
    {
        let mut config = ServerConfigs::default();
        let ServerConfigsBuilder { base_dir, host, port, log_level, workers } = self;
        if let Some(base_path) = base_dir {
            config.base_dir = base_path;
        }
        if let Some(h) = host {
            config.host = h;
        }
        if let Some(p) = port {
            config.port = p;
        }
        if let Some(l) = log_level {
            config.log_level = l;
        }
        if let Some(w) = workers {
            config.workers = w;
        }
        config
    }
}

} // verus!
