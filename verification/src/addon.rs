//! The declared addons, their providers and the locks that record what was
//! resolved for them.

use vstd::prelude::*;
use vstd::string::*;
use crate::text::{concat3, same_text};

verus! {

/// An addon as the configuration declares it.
#[derive(Debug, PartialEq, Eq)]
pub struct Addon {
    pub name: String,
    pub provider: String,
}

/// What an `Addon` holds, as plain text.
pub struct AddonView {
    pub name: Seq<char>,
    pub provider: Seq<char>,
}

impl View for Addon {
    type V = AddonView;

    open spec fn view(&self) -> AddonView {
        AddonView { name: self.name@, provider: self.provider@ }
    }
}

impl Clone for Addon {
    fn clone(&self) -> (r: Self)
        ensures
            r == *self,
    {
        Addon { name: self.name.clone(), provider: self.provider.clone() }
    }
}

/// A resolved, timestamped version record for one addon from one provider.
#[derive(Debug, PartialEq, Eq)]
pub struct AddonLock {
    /// The key, `provider/name`.
    pub name: String,
    /// The provider's own identifier, from which a download is requested.
    pub resolved: String,
    /// The version as the provider displays it; never compared.
    pub version: String,
    /// When the version was published, in seconds since the epoch.
    pub timestamp: u64,
}

/// What an `AddonLock` holds, as plain values.
pub struct LockView {
    pub name: Seq<char>,
    pub resolved: Seq<char>,
    pub version: Seq<char>,
    pub timestamp: u64,
}

impl View for AddonLock {
    type V = LockView;

    open spec fn view(&self) -> LockView {
        LockView {
            name: self.name@,
            resolved: self.resolved@,
            version: self.version@,
            timestamp: self.timestamp,
        }
    }
}

impl Clone for AddonLock {
    fn clone(&self) -> (r: Self)
        ensures
            r == *self,
    {
        AddonLock {
            name: self.name.clone(),
            resolved: self.resolved.clone(),
            version: self.version.clone(),
            timestamp: self.timestamp,
        }
    }
}

/// The content sources that versions can be resolved against.
#[derive(Debug, Clone, Copy, PartialEq, Eq, Structural)]
pub enum Provider {
    Curse,
    Ace,
    Tukui,
}

/// The provider that a configuration names, if it is a known one.
pub open spec fn provider_named(name: Seq<char>) -> Option<Provider> {
    if name == "curse"@ {
        Some(Provider::Curse)
    } else if name == "ace"@ {
        Some(Provider::Ace)
    } else if name == "tukui"@ {
        Some(Provider::Tukui)
    } else {
        None
    }
}

/// The key under which the lock of `name` at `provider` is stored.
pub open spec fn key_of(provider: Seq<char>, name: Seq<char>) -> Seq<char> {
    provider + "/"@ + name
}

impl Provider {
    /// The provider that `name` names.
    pub fn parse(name: &str) -> (r: Option<Provider>)
        ensures
            r == provider_named(name@),
    {
        if same_text(name, "curse") {
            Some(Provider::Curse)
        } else if same_text(name, "ace") {
            Some(Provider::Ace)
        } else if same_text(name, "tukui") {
            Some(Provider::Tukui)
        } else {
            None
        }
    }
}

impl Addon {
    /// The key under which this addon's lock is stored: `provider/name`.
    pub fn key(&self) -> (r: String)
        ensures
            r@ == key_of(self@.provider, self@.name),
    {
        concat3(self.provider.as_str(), "/", self.name.as_str())
    }

    /// The provider of this addon, if the configuration names a known one.
    pub fn provider_kind(&self) -> (r: Option<Provider>)
        ensures
            r == provider_named(self@.provider),
    {
        Provider::parse(self.provider.as_str())
    }
}

} // verus!
