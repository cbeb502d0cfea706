//! The configuration store: the marketplace's one-time configuration and the counter from
//! which listing identifiers are drawn.

use crate::error::Error;
use crate::identity::{AssetRef, Identity};
use vstd::prelude::*;

verus! {

/// The configuration of a marketplace. It is written once and never changed.
#[derive(Clone, Copy, Debug, PartialEq, Eq, Structural)]
pub struct Config {
    /// The asset in which buyers pay.
    pub payment_asset: AssetRef,
    /// The administrator named at initialization.
    pub admin: Identity,
    /// Set when the configuration is written.
    pub initialized: bool,
}

/// What the store holds: the configuration, once written, and the last identifier handed out.
pub struct StoreState {
    pub config: Option<Config>,
    pub next_id: u64,
}

impl StoreState {
    /// A stored configuration is marked as initialized.
    pub open spec fn wf(self) -> bool {
        self.config matches Some(config) ==> config.initialized
    }
}

/// The configuration store.
#[derive(Debug)]
pub struct ConfigStore {
    config: Option<Config>,
    next_id: u64,
}

impl View for ConfigStore {
    type V = StoreState;

    closed spec fn view(&self) -> StoreState {
        StoreState { config: self.config, next_id: self.next_id }
    }
}

impl ConfigStore {
    /// A store without configuration, whose counter stands at zero.
    pub fn new() -> (store: ConfigStore)
        ensures
            store@ == (StoreState { config: None, next_id: 0 }),
    {
        ConfigStore { config: None, next_id: 0 }
    }

    /// The store that holds `config` and whose counter stands at `next_id`; `None` when
    /// `config` is not marked as initialized.
    pub fn restore(config: Option<Config>, next_id: u64) -> (store: Option<ConfigStore>)
        ensures
            match store {
                Some(store) => store@ == (StoreState { config, next_id }) && store@.wf(),
                None => !(StoreState { config, next_id }).wf(),
            },
    {
        if let Some(stored) = config {
            if !stored.initialized {
                return None;
            }
        }
        Some(ConfigStore { config, next_id })
    }

    /// Writes the configuration and resets the counter to zero.
    ///
    /// Refused with `AlreadyInitialized` when a configuration is already stored.
    pub fn initialize(&mut self, payment_asset: AssetRef, admin: Identity) -> (result: Result<
        (),
        Error,
    >)
        ensures
            result == if old(self)@.config is Some {
                Err::<(), Error>(Error::AlreadyInitialized)
            } else {
                Ok(())
            },
            result is Ok ==> final(self)@ == (StoreState {
                config: Some(Config { payment_asset, admin, initialized: true }),
                next_id: 0,
            }),
            result is Err ==> final(self)@ == old(self)@,
    {
        if self.config.is_some() {
            return Err(Error::AlreadyInitialized);
        }
        self.config = Some(Config { payment_asset, admin, initialized: true });
        self.next_id = 0;
        Ok(())
    }

    /// The stored configuration; `NotInitialized` when none has been written.
    pub fn require_initialized(&self) -> (result: Result<Config, Error>)
        ensures
            result == match self@.config {
                Some(config) => Ok::<Config, Error>(config),
                None => Err(Error::NotInitialized),
            },
    {
        match self.config {
            Some(config) => Ok(config),
            None => Err(Error::NotInitialized),
        }
    }

    /// The stored configuration, if one has been written.
    pub fn config(&self) -> (config: Option<Config>)
        ensures
            config == self@.config,
    {
        self.config
    }

    /// The identifier that was handed out last; zero when none was.
    pub fn next_id(&self) -> (next_id: u64)
        ensures
            next_id == self@.next_id,
    {
        self.next_id
    }

    /// Hands out the next identifier.
    pub fn advance(&mut self) -> (id: u64)
        requires
            old(self)@.next_id < u64::MAX,
        ensures
            id == old(self)@.next_id + 1,
            final(self)@ == (StoreState { next_id: id, ..old(self)@ }),
    {
        self.next_id = self.next_id + 1;
        self.next_id
    }
}

} // verus!
