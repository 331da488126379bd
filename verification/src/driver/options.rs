//! The configuration of a driver.

use vstd::prelude::*;
use vstd::string::*;

use crate::driver::gate::{DiagnosticsPolicy, Mode};

verus! {

/// A Cosmos DB account: its endpoint, and the key that opens it.
#[derive(Clone, PartialEq, Eq)]
pub struct AccountReference {
    endpoint: String,
    master_key: String,
}

/// What an [`AccountReference`] holds.
#[verifier::ext_equal]
pub struct AccountModel {
    pub endpoint: Seq<char>,
    pub master_key: Seq<char>,
}

impl View for AccountReference {
    type V = AccountModel;

    closed spec fn view(&self) -> AccountModel {
        AccountModel { endpoint: self.endpoint@, master_key: self.master_key@ }
    }
}

impl AccountReference {
    /// An account that is opened with its master key.
    pub fn with_master_key(endpoint: &str, master_key: &str) -> (account: Self)
        ensures
            account@ == (AccountModel { endpoint: endpoint@, master_key: master_key@ }),
    {
        AccountReference { endpoint: endpoint.to_owned(), master_key: master_key.to_owned() }
    }

    /// The endpoint of the account.
    pub fn endpoint(&self) -> (s: &str)
        ensures
            s@ == self@.endpoint,
    {
        self.endpoint.as_str()
    }
}

/// Whether a write answers with the content that it wrote.
#[derive(Clone, Copy, Debug, PartialEq, Eq, Structural)]
pub enum ContentResponseOnWrite {
    /// It does.
    Enabled,
    /// It does not.
    Disabled,
}

/// Defaults for the options of operations.
#[derive(Clone, Copy, Debug, PartialEq, Eq, Structural)]
pub struct RuntimeOptions {
    /// Whether a write answers with the content that it wrote.
    pub content_response_on_write: Option<ContentResponseOnWrite>,
}

impl Default for RuntimeOptions {
    fn default() -> (options: Self)
        ensures
            options.content_response_on_write is None,
    {
        RuntimeOptions { content_response_on_write: None }
    }
}

impl RuntimeOptions {
    /// Returns a new builder.
    pub fn builder() -> (b: RuntimeOptionsBuilder)
        ensures
            b.options() == (RuntimeOptions { content_response_on_write: None }),
    {
        RuntimeOptionsBuilder { options: RuntimeOptions { content_response_on_write: None } }
    }
}

/// Builder for [`RuntimeOptions`].
#[derive(Clone, Copy, Debug)]
pub struct RuntimeOptionsBuilder {
    options: RuntimeOptions,
}

impl RuntimeOptionsBuilder {
    /// The options as set so far.
    pub closed spec fn options(&self) -> RuntimeOptions {
        self.options
    }

    /// Sets whether a write answers with the content that it wrote.
    pub fn with_content_response_on_write(self, value: ContentResponseOnWrite) -> (b: Self)
        ensures
            b.options() == (RuntimeOptions { content_response_on_write: Some(value) }),
    {
        RuntimeOptionsBuilder {
            options: RuntimeOptions { content_response_on_write: Some(value) },
        }
    }

    /// Builds the [`RuntimeOptions`].
    pub fn build(self) -> (options: RuntimeOptions)
        ensures
            options == self.options(),
    {
        self.options
    }
}

/// The runtime options of a driver.
#[derive(Clone, Debug)]
pub struct SharedRuntimeOptions {
    current: RuntimeOptions,
}

impl View for SharedRuntimeOptions {
    type V = RuntimeOptions;

    closed spec fn view(&self) -> RuntimeOptions {
        self.current
    }
}

impl SharedRuntimeOptions {
    /// Holds these options.
    pub fn from_options(options: RuntimeOptions) -> (shared: Self)
        ensures
            shared@ == options,
    {
        SharedRuntimeOptions { current: options }
    }

    /// Sets whether a write answers with the content that it wrote, or leaves it open. Operations
    /// that start afterwards see it.
    pub fn set_content_response_on_write(&mut self, value: Option<ContentResponseOnWrite>)
        ensures
            final(self)@ == (RuntimeOptions { content_response_on_write: value, ..old(self)@ }),
    {
        self.current.content_response_on_write = value;
    }

    /// The options as they are now.
    pub fn snapshot(&self) -> (options: RuntimeOptions)
        ensures
            options == self@,
    {
        self.current
    }
}

/// The configuration of a driver: a connection to one account.
#[non_exhaustive]
#[derive(Clone)]
pub struct DriverOptions {
    account: AccountReference,
    runtime_options: SharedRuntimeOptions,
    diagnostics_policy: DiagnosticsPolicy,
}

/// What [`DriverOptions`] hold.
#[verifier::ext_equal]
pub struct DriverModel {
    pub account: AccountModel,
    pub runtime_options: RuntimeOptions,
    pub diagnostics_policy: DiagnosticsPolicy,
}

impl View for DriverOptions {
    type V = DriverModel;

    closed spec fn view(&self) -> DriverModel {
        DriverModel {
            account: self.account@,
            runtime_options: self.runtime_options@,
            diagnostics_policy: self.diagnostics_policy,
        }
    }
}

/// The policy of a driver for which none was set: off.
pub open spec fn policy_unless_set() -> DiagnosticsPolicy {
    DiagnosticsPolicy {
        mode: Mode::Off,
        latency_threshold: None,
        capture_on_error: true,
        binary: false,
    }
}

impl DriverOptions {
    /// Returns a new builder. The account is required.
    pub fn builder(account: AccountReference) -> (b: DriverOptionsBuilder)
        ensures
            b@ == (BuilderModel {
                account: account@,
                runtime_options: None,
                diagnostics_policy: policy_unless_set(),
            }),
    {
        DriverOptionsBuilder::new(account)
    }

    /// Returns the account.
    pub fn account(&self) -> (account: &AccountReference)
        ensures
            account@ == self@.account,
    {
        &self.account
    }

    /// Returns the runtime options.
    pub fn runtime_options(&self) -> (options: &SharedRuntimeOptions)
        ensures
            options@ == self@.runtime_options,
    {
        &self.runtime_options
    }

    /// Returns the runtime options for a change. The account and the policy stay as they are.
    pub fn runtime_options_mut(&mut self) -> (options: &mut SharedRuntimeOptions)
        ensures
            options@ == old(self)@.runtime_options,
            final(self)@ == (DriverModel { runtime_options: final(options)@, ..old(self)@ }),
    {
        &mut self.runtime_options
    }

    /// Returns the diagnostics policy that this driver goes by.
    pub fn diagnostics_policy(&self) -> (policy: DiagnosticsPolicy)
        ensures
            policy == self@.diagnostics_policy,
    {
        self.diagnostics_policy
    }
}

/// Builder for [`DriverOptions`].
#[non_exhaustive]
#[derive(Clone)]
pub struct DriverOptionsBuilder {
    account: AccountReference,
    runtime_options: Option<RuntimeOptions>,
    diagnostics_policy: DiagnosticsPolicy,
}

/// What a [`DriverOptionsBuilder`] holds.
#[verifier::ext_equal]
pub struct BuilderModel {
    pub account: AccountModel,
    pub runtime_options: Option<RuntimeOptions>,
    pub diagnostics_policy: DiagnosticsPolicy,
}

impl View for DriverOptionsBuilder {
    type V = BuilderModel;

    closed spec fn view(&self) -> BuilderModel {
        BuilderModel {
            account: self.account@,
            runtime_options: self.runtime_options,
            diagnostics_policy: self.diagnostics_policy,
        }
    }
}

impl DriverOptionsBuilder {
    /// Creates a new builder for an account.
    pub fn new(account: AccountReference) -> (b: Self)
        ensures
            b@ == (BuilderModel {
                account: account@,
                runtime_options: None,
                diagnostics_policy: policy_unless_set(),
            }),
    {
        DriverOptionsBuilder {
            account,
            runtime_options: None,
            diagnostics_policy: DiagnosticsPolicy::default(),
        }
    }

    /// Sets the runtime options: the defaults of operations.
    pub fn with_runtime_options(self, options: RuntimeOptions) -> (b: Self)
        ensures
            b@ == (BuilderModel { runtime_options: Some(options), ..self@ }),
    {
        let mut b = self;
        b.runtime_options = Some(options);
        b
    }

    /// Sets the diagnostics policy.
    pub fn with_diagnostics_policy(self, policy: DiagnosticsPolicy) -> (b: Self)
        ensures
            b@ == (BuilderModel { diagnostics_policy: policy, ..self@ }),
    {
        let mut b = self;
        b.diagnostics_policy = policy;
        b
    }

    /// Builds the [`DriverOptions`].
    pub fn build(self) -> (options: DriverOptions)
        ensures
            options@ == (DriverModel {
                account: self@.account,
                runtime_options: match self@.runtime_options {
                    Some(o) => o,
                    None => RuntimeOptions { content_response_on_write: None },
                },
                diagnostics_policy: self@.diagnostics_policy,
            }),
    {
        let runtime: RuntimeOptions = match self.runtime_options {
            Some(o) => o,
            None => RuntimeOptions::default(),
        };
        DriverOptions {
            account: self.account,
            runtime_options: SharedRuntimeOptions::from_options(runtime),
            diagnostics_policy: self.diagnostics_policy,
        }
    }
}

} // verus!
