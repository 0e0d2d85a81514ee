//! The settings of a load: where to write, how large the batches are, how
//! many bulk calls may run at once. A builder collects them and a loader is
//! what a builder that holds valid settings builds.

use vstd::prelude::*;
use vstd::string::*;
use crate::engine::LoadEngine;
use crate::engine::Run;

verus! {

/// When the documents written by a call become visible to searches.
#[derive(Debug, Clone, Copy, PartialEq, Eq, Structural)]
pub enum RefreshMode {
    /// The store refreshes on its own schedule.
    NoRefresh,
    /// The store refreshes right after the call.
    ImmediateRefresh,
    /// The call returns once a refresh has made its documents visible.
    WaitForRefresh,
}

impl RefreshMode {
    /// The mode that a flag's text asks for: `true` asks for an immediate
    /// refresh, `wait_for` for waiting, and any other text for no refresh.
    pub open spec fn of_flag(text: Seq<char>) -> RefreshMode {
        if text == "true"@ {
            RefreshMode::ImmediateRefresh
        } else if text == "wait_for"@ {
            RefreshMode::WaitForRefresh
        } else {
            RefreshMode::NoRefresh
        }
    }

    /// The mode that a flag's text asks for.
    pub fn from_flag(text: &str) -> (mode: RefreshMode)
        ensures
            mode == RefreshMode::of_flag(text@),
    {
        let text = String::from_str(text);
        if text == String::from_str("true") {
            RefreshMode::ImmediateRefresh
        } else if text == String::from_str("wait_for") {
            RefreshMode::WaitForRefresh
        } else {
            RefreshMode::NoRefresh
        }
    }
}

/// The name and password under which the store is written to.
#[derive(Debug, Clone, PartialEq, Eq)]
pub struct Credentials {
    pub username: String,
    pub password: String,
}

/// Which kind of call writes the documents.
#[derive(Debug, Clone, Copy, PartialEq, Eq, Structural)]
pub enum LoaderKind {
    /// One bulk call for each batch of documents.
    Bulk,
    /// One index call for each document.
    Single,
}

impl LoaderKind {
    /// The kind of loader for a batch size: bulk calls for batches of more
    /// than one document, single calls otherwise.
    pub fn for_batch_size(batch_size: usize) -> (kind: LoaderKind)
        ensures
            kind == if batch_size > 1 {
                LoaderKind::Bulk
            } else {
                LoaderKind::Single
            },
    {
        if batch_size > 1 {
            LoaderKind::Bulk
        } else {
            LoaderKind::Single
        }
    }
}

/// Why a builder's settings make no loader.
#[derive(Debug, Clone, PartialEq, Eq)]
pub enum ConfigError {
    /// The address of the store is no absolute URL.
    InvalidUri { message: String },
    /// No index is named.
    MissingIndex,
    /// A batch must hold at least one document.
    ZeroBatchSize,
    /// At least one call must be allowed to run.
    ZeroThrottle,
}

impl ConfigError {
    /// The text that describes this error to a user.
    pub open spec fn message_spec(&self) -> Seq<char> {
        match self {
            ConfigError::InvalidUri { message } => message@,
            ConfigError::MissingIndex => "Index name is required."@,
            ConfigError::ZeroBatchSize => "Batch size must be at least 1."@,
            ConfigError::ZeroThrottle => "Throttle must be at least 1."@,
        }
    }

    /// The text that describes this error to a user.
    pub fn message(&self) -> (text: String)
        ensures
            text@ == self.message_spec(),
    {
        match self {
            ConfigError::InvalidUri { message } => message.clone(),
            ConfigError::MissingIndex => String::from_str("Index name is required."),
            ConfigError::ZeroBatchSize => String::from_str("Batch size must be at least 1."),
            ConfigError::ZeroThrottle => String::from_str("Throttle must be at least 1."),
        }
    }
}

/// Whether a text is an absolute URL: whether `Url::parse` of the client
/// library accepts it.
pub uninterp spec fn uri_parses(uri: Seq<char>) -> bool;

/// Calls `elasticsearch::http::Url::parse` and hands back the text of its
/// error: `None` where the text parses.
#[verifier::external_body]
fn uri_fault(uri: &str) -> (fault: Option<String>)
    ensures
        fault is None <==> uri_parses(uri@),
{
    match elasticsearch::http::Url::parse(uri) {
        Ok(_) => None,
        Err(error) => Some(error.to_string()),
    }
}

/// The settings of a load, as the mathematical value of builders and
/// loaders.
pub struct Settings {
    pub uri: Seq<char>,
    pub credentials: Option<(Seq<char>, Seq<char>)>,
    pub index: Option<Seq<char>>,
    pub batch_size: nat,
    pub refresh: RefreshMode,
    pub throttle: nat,
}

/// The address that a builder starts with.
pub open spec fn default_uri() -> Seq<char> {
    "https://127.0.0.1:9200/"@
}

/// The batch size that a builder starts with.
pub const DEFAULT_BULK_SIZE: usize = 10_000;

/// The number of calls at once that a builder starts with.
pub const DEFAULT_SIMULTANEOUS_REQUESTS: usize = 1;

impl Settings {
    /// The settings that a builder starts with.
    pub open spec fn initial(batch_size: nat) -> Settings {
        Settings {
            uri: default_uri(),
            credentials: None,
            index: None,
            batch_size,
            refresh: RefreshMode::NoRefresh,
            throttle: DEFAULT_SIMULTANEOUS_REQUESTS as nat,
        }
    }

    /// What is wrong with settings for bulk calls, where `uri_fault` is what
    /// parsing their address gave: the first of an address that does not
    /// parse, a batch size of zero and a throttle of zero.
    pub open spec fn bulk_fault(self, uri_fault: Option<String>) -> Option<ConfigError> {
        if uri_fault is Some {
            Some(ConfigError::InvalidUri { message: uri_fault->0 })
        } else if self.batch_size == 0 {
            Some(ConfigError::ZeroBatchSize)
        } else if self.throttle == 0 {
            Some(ConfigError::ZeroThrottle)
        } else {
            None
        }
    }

    /// What is wrong with settings for single calls, where `uri_fault` is
    /// what parsing their address gave: the first of an address that does not
    /// parse, a missing index and a throttle of zero.
    pub open spec fn single_fault(self, uri_fault: Option<String>) -> Option<ConfigError> {
        if uri_fault is Some {
            Some(ConfigError::InvalidUri { message: uri_fault->0 })
        } else if self.index is None {
            Some(ConfigError::MissingIndex)
        } else if self.throttle == 0 {
            Some(ConfigError::ZeroThrottle)
        } else {
            None
        }
    }
}

/// The view of credentials: name and password.
pub open spec fn credentials_view(credentials: Option<Credentials>) -> Option<
    (Seq<char>, Seq<char>),
> {
    match credentials {
        Some(c) => Some((c.username@, c.password@)),
        None => None,
    }
}

/// The view of an index name.
pub open spec fn index_view(index: Option<String>) -> Option<Seq<char>> {
    match index {
        Some(name) => Some(name@),
        None => None,
    }
}

/// Starts a run over a sequence of records.
pub trait ElasticLoad {
    /// The loader holds valid settings.
    spec fn wf(&self) -> bool;

    /// The number of records that the loader writes with one call.
    spec fn run_batch_size(&self) -> nat;

    /// The number of calls that the loader lets run at once.
    spec fn run_throttle(&self) -> nat;

    /// Starts a run over `records` records: an engine that batches them.
    fn load(&self, records: usize) -> (engine: LoadEngine)
        requires
            self.wf(),
        ensures
            engine.wf(),
            engine@ == Run::idle(self.run_batch_size(), self.run_throttle()).load(records as nat),
    ;
}

/// Collects the settings of a load by bulk calls.
#[derive(Debug, Clone)]
pub struct BulkElasticLoadBuilder {
    uri: String,
    credentials: Option<Credentials>,
    index: Option<String>,
    batch_size: usize,
    refresh: RefreshMode,
    throttle: usize,
}

impl View for BulkElasticLoadBuilder {
    type V = Settings;

    closed spec fn view(&self) -> Settings {
        Settings {
            uri: self.uri@,
            credentials: credentials_view(self.credentials),
            index: index_view(self.index),
            batch_size: self.batch_size as nat,
            refresh: self.refresh,
            throttle: self.throttle as nat,
        }
    }
}

impl BulkElasticLoadBuilder {
    /// A builder with the settings to start with: the store on this machine,
    /// no credentials, no index, batches of ten thousand documents, no
    /// refresh and one call at a time.
    pub fn new() -> (builder: BulkElasticLoadBuilder)
        ensures
            builder@ == Settings::initial(DEFAULT_BULK_SIZE as nat),
    {
        BulkElasticLoadBuilder {
            uri: String::from_str("https://127.0.0.1:9200/"),
            credentials: None,
            index: None,
            batch_size: DEFAULT_BULK_SIZE,
            refresh: RefreshMode::NoRefresh,
            throttle: DEFAULT_SIMULTANEOUS_REQUESTS,
        }
    }

    /// Sets the address of the store.
    pub fn with_uri(self, uri: String) -> (builder: BulkElasticLoadBuilder)
        ensures
            builder@ == (Settings { uri: uri@, ..self@ }),
    {
        BulkElasticLoadBuilder { uri, ..self }
    }

    /// Sets the credentials.
    pub fn with_credentials(self, credentials: Credentials) -> (builder: BulkElasticLoadBuilder)
        ensures
            builder@ == (Settings {
                credentials: Some((credentials.username@, credentials.password@)),
                ..self@
            }),
    {
        BulkElasticLoadBuilder { credentials: Some(credentials), ..self }
    }

    /// Sets the number of documents of a batch.
    pub fn with_batch_size(self, batch_size: usize) -> (builder: BulkElasticLoadBuilder)
        ensures
            builder@ == (Settings { batch_size: batch_size as nat, ..self@ }),
    {
        BulkElasticLoadBuilder { batch_size, ..self }
    }

    /// Sets the number of bulk calls that may run at once.
    pub fn with_throttle(self, throttle: usize) -> (builder: BulkElasticLoadBuilder)
        ensures
            builder@ == (Settings { throttle: throttle as nat, ..self@ }),
    {
        BulkElasticLoadBuilder { throttle, ..self }
    }

    /// Sets the refresh mode.
    pub fn with_refresh(self, refresh: RefreshMode) -> (builder: BulkElasticLoadBuilder)
        ensures
            builder@ == (Settings { refresh, ..self@ }),
    {
        BulkElasticLoadBuilder { refresh, ..self }
    }

    /// Sets the index to write to.
    pub fn with_index(self, index: String) -> (builder: BulkElasticLoadBuilder)
        ensures
            builder@ == (Settings { index: Some(index@), ..self@ }),
    {
        BulkElasticLoadBuilder { index: Some(index), ..self }
    }

    /// Builds the loader, where `uri_fault` is what parsing the address
    /// gave: the loader holds the builder's settings where nothing is wrong
    /// with them, else the first fault is the error.
    pub fn validate(self, uri_fault: Option<String>) -> (built: Result<BulkElasticLoad, ConfigError>)
        ensures
            match built {
                Ok(loader) => self@.bulk_fault(uri_fault) is None && loader@ == self@
                    && loader.wf(),
                Err(error) => self@.bulk_fault(uri_fault) == Some(error),
            },
    {
        match uri_fault {
            Some(message) => Err(ConfigError::InvalidUri { message }),
            None => {
                if self.batch_size == 0 {
                    Err(ConfigError::ZeroBatchSize)
                } else if self.throttle == 0 {
                    Err(ConfigError::ZeroThrottle)
                } else {
                    Ok(
                        BulkElasticLoad {
                            uri: self.uri,
                            credentials: self.credentials,
                            index: self.index,
                            batch_size: self.batch_size,
                            refresh: self.refresh,
                            throttle: self.throttle,
                        },
                    )
                }
            },
        }
    }

    /// Builds the loader: the builder's settings, where the address parses
    /// and batch size and throttle are at least one.
    pub fn build(self) -> (built: Result<BulkElasticLoad, ConfigError>)
        ensures
            match built {
                Ok(loader) => uri_parses(self@.uri) && self@.batch_size >= 1 && self@.throttle >= 1
                    && loader@ == self@ && loader.wf(),
                Err(ConfigError::InvalidUri { .. }) => !uri_parses(self@.uri),
                Err(ConfigError::ZeroBatchSize) => uri_parses(self@.uri) && self@.batch_size == 0,
                Err(ConfigError::ZeroThrottle) => uri_parses(self@.uri) && self@.batch_size >= 1
                    && self@.throttle == 0,
                Err(ConfigError::MissingIndex) => false,
            },
    {
        let fault = uri_fault(self.uri.as_str());
        self.validate(fault)
    }
}

/// The settings of a load by bulk calls, found valid.
#[derive(Debug, Clone)]
pub struct BulkElasticLoad {
    uri: String,
    credentials: Option<Credentials>,
    index: Option<String>,
    batch_size: usize,
    refresh: RefreshMode,
    throttle: usize,
}

impl View for BulkElasticLoad {
    type V = Settings;

    closed spec fn view(&self) -> Settings {
        Settings {
            uri: self.uri@,
            credentials: credentials_view(self.credentials),
            index: index_view(self.index),
            batch_size: self.batch_size as nat,
            refresh: self.refresh,
            throttle: self.throttle as nat,
        }
    }
}

impl BulkElasticLoad {
    /// A builder with the settings to start with.
    pub fn builder() -> (builder: BulkElasticLoadBuilder)
        ensures
            builder@ == Settings::initial(DEFAULT_BULK_SIZE as nat),
    {
        BulkElasticLoadBuilder::new()
    }

    /// The address of the store.
    pub fn uri(&self) -> (uri: &String)
        ensures
            uri@ == self@.uri,
    {
        &self.uri
    }

    /// The credentials, if any were set.
    pub fn credentials(&self) -> (credentials: &Option<Credentials>)
        ensures
            credentials_view(*credentials) == self@.credentials,
    {
        &self.credentials
    }

    /// The index to write to, if one was set.
    pub fn index(&self) -> (index: &Option<String>)
        ensures
            index_view(*index) == self@.index,
    {
        &self.index
    }

    /// The number of documents of a batch.
    pub fn batch_size(&self) -> (batch_size: usize)
        ensures
            batch_size == self@.batch_size,
    {
        self.batch_size
    }

    /// The refresh mode.
    pub fn refresh(&self) -> (refresh: RefreshMode)
        ensures
            refresh == self@.refresh,
    {
        self.refresh
    }

    /// The number of bulk calls that may run at once.
    pub fn throttle(&self) -> (throttle: usize)
        ensures
            throttle == self@.throttle,
    {
        self.throttle
    }
}

impl ElasticLoad for BulkElasticLoad {
    /// Batch size and throttle are at least one.
    open spec fn wf(&self) -> bool {
        self@.batch_size >= 1 && self@.throttle >= 1
    }

    open spec fn run_batch_size(&self) -> nat {
        self@.batch_size
    }

    open spec fn run_throttle(&self) -> nat {
        self@.throttle
    }

    /// Starts a run over `records` records, in batches of the loader's batch
    /// size and with as many bulk calls at once as its throttle allows.
    fn load(&self, records: usize) -> (engine: LoadEngine) {
        let mut engine = LoadEngine::new(self.batch_size, self.throttle);
        engine.load(records);
        engine
    }
}

/// Collects the settings of a load by single index calls.
#[derive(Debug, Clone)]
pub struct SingleElasticLoadBuilder {
    uri: String,
    credentials: Option<Credentials>,
    index: Option<String>,
    throttle: usize,
    refresh: RefreshMode,
}

impl View for SingleElasticLoadBuilder {
    type V = Settings;

    closed spec fn view(&self) -> Settings {
        Settings {
            uri: self.uri@,
            credentials: credentials_view(self.credentials),
            index: index_view(self.index),
            batch_size: 1,
            refresh: self.refresh,
            throttle: self.throttle as nat,
        }
    }
}

impl SingleElasticLoadBuilder {
    /// A builder with the settings to start with: the store on this machine,
    /// no credentials, no index, one document a call, no refresh and one
    /// call at a time.
    pub fn new() -> (builder: SingleElasticLoadBuilder)
        ensures
            builder@ == Settings::initial(1),
    {
        SingleElasticLoadBuilder {
            uri: String::from_str("https://127.0.0.1:9200/"),
            credentials: None,
            index: None,
            throttle: DEFAULT_SIMULTANEOUS_REQUESTS,
            refresh: RefreshMode::NoRefresh,
        }
    }

    /// Sets the address of the store.
    pub fn with_uri(self, uri: String) -> (builder: SingleElasticLoadBuilder)
        ensures
            builder@ == (Settings { uri: uri@, ..self@ }),
    {
        SingleElasticLoadBuilder { uri, ..self }
    }

    /// Sets the credentials.
    pub fn with_credentials(self, credentials: Credentials) -> (builder: SingleElasticLoadBuilder)
        ensures
            builder@ == (Settings {
                credentials: Some((credentials.username@, credentials.password@)),
                ..self@
            }),
    {
        SingleElasticLoadBuilder { credentials: Some(credentials), ..self }
    }

    /// Sets the number of index calls that may run at once.
    pub fn with_throttle(self, throttle: usize) -> (builder: SingleElasticLoadBuilder)
        ensures
            builder@ == (Settings { throttle: throttle as nat, ..self@ }),
    {
        SingleElasticLoadBuilder { throttle, ..self }
    }

    /// Sets the index to write to.
    pub fn with_index(self, index: String) -> (builder: SingleElasticLoadBuilder)
        ensures
            builder@ == (Settings { index: Some(index@), ..self@ }),
    {
        SingleElasticLoadBuilder { index: Some(index), ..self }
    }

    /// Sets the refresh mode.
    pub fn with_refresh(self, refresh: RefreshMode) -> (builder: SingleElasticLoadBuilder)
        ensures
            builder@ == (Settings { refresh, ..self@ }),
    {
        SingleElasticLoadBuilder { refresh, ..self }
    }

    /// Builds the loader, where `uri_fault` is what parsing the address
    /// gave: the loader holds the builder's settings where nothing is wrong
    /// with them, else the first fault is the error.
    pub fn validate(self, uri_fault: Option<String>) -> (built: Result<
        SingleElasticLoad,
        ConfigError,
    >)
        ensures
            match built {
                Ok(loader) => self@.single_fault(uri_fault) is None && loader@ == self@
                    && loader.wf(),
                Err(error) => self@.single_fault(uri_fault) == Some(error),
            },
    {
        match uri_fault {
            Some(message) => Err(ConfigError::InvalidUri { message }),
            None => {
                match self.index {
                    None => Err(ConfigError::MissingIndex),
                    Some(index) => {
                        if self.throttle == 0 {
                            Err(ConfigError::ZeroThrottle)
                        } else {
                            Ok(
                                SingleElasticLoad {
                                    uri: self.uri,
                                    credentials: self.credentials,
                                    index,
                                    throttle: self.throttle,
                                    refresh: self.refresh,
                                },
                            )
                        }
                    },
                }
            },
        }
    }

    /// Builds the loader: the builder's settings, where the address parses,
    /// an index is named and the throttle is at least one.
    pub fn build(self) -> (built: Result<SingleElasticLoad, ConfigError>)
        ensures
            match built {
                Ok(loader) => uri_parses(self@.uri) && self@.index is Some && self@.throttle >= 1
                    && loader@ == self@ && loader.wf(),
                Err(ConfigError::InvalidUri { .. }) => !uri_parses(self@.uri),
                Err(ConfigError::MissingIndex) => uri_parses(self@.uri) && self@.index is None,
                Err(ConfigError::ZeroThrottle) => uri_parses(self@.uri) && self@.index is Some
                    && self@.throttle == 0,
                Err(ConfigError::ZeroBatchSize) => false,
            },
    {
        let fault = uri_fault(self.uri.as_str());
        self.validate(fault)
    }
}

/// The settings of a load by single index calls, found valid.
#[derive(Debug, Clone)]
pub struct SingleElasticLoad {
    uri: String,
    credentials: Option<Credentials>,
    index: String,
    throttle: usize,
    refresh: RefreshMode,
}

impl View for SingleElasticLoad {
    type V = Settings;

    closed spec fn view(&self) -> Settings {
        Settings {
            uri: self.uri@,
            credentials: credentials_view(self.credentials),
            index: Some(self.index@),
            batch_size: 1,
            refresh: self.refresh,
            throttle: self.throttle as nat,
        }
    }
}

impl SingleElasticLoad {
    /// A builder with the settings to start with.
    pub fn builder() -> (builder: SingleElasticLoadBuilder)
        ensures
            builder@ == Settings::initial(1),
    {
        SingleElasticLoadBuilder::new()
    }

    /// The address of the store.
    pub fn uri(&self) -> (uri: &String)
        ensures
            uri@ == self@.uri,
    {
        &self.uri
    }

    /// The credentials, if any were set.
    pub fn credentials(&self) -> (credentials: &Option<Credentials>)
        ensures
            credentials_view(*credentials) == self@.credentials,
    {
        &self.credentials
    }

    /// The index to write to.
    pub fn index(&self) -> (index: &String)
        ensures
            Some(index@) == self@.index,
    {
        &self.index
    }

    /// The refresh mode.
    pub fn refresh(&self) -> (refresh: RefreshMode)
        ensures
            refresh == self@.refresh,
    {
        self.refresh
    }

    /// The number of index calls that may run at once.
    pub fn throttle(&self) -> (throttle: usize)
        ensures
            throttle == self@.throttle,
    {
        self.throttle
    }
}

impl ElasticLoad for SingleElasticLoad {
    /// The throttle is at least one, and each call writes one document.
    open spec fn wf(&self) -> bool {
        self@.batch_size == 1 && self@.throttle >= 1
    }

    open spec fn run_batch_size(&self) -> nat {
        1
    }

    open spec fn run_throttle(&self) -> nat {
        self@.throttle
    }

    /// Starts a run over `records` records, one document a call and with as
    /// many index calls at once as the loader's throttle allows.
    fn load(&self, records: usize) -> (engine: LoadEngine) {
        let mut engine = LoadEngine::new(1, self.throttle);
        engine.load(records);
        engine
    }
}

} // verus!
