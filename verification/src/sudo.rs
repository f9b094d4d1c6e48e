//! The sudo key: one account that may dispatch calls with an origin other
//! than its own.
//!
//! The pallet decides; dispatching is the caller's business. A request is
//! answered with the origin under which the caller is to dispatch the call,
//! or with the reason for which it is refused. What the dispatch returned
//! goes into the notification that the caller emits afterwards.

use crate::types::{NodeId, Origin};
use sp_runtime::DispatchError;
use vstd::prelude::*;

verus! {

/// `sp_runtime::DispatchError`, the reason for which a dispatched call
/// failed. It is carried through; nothing is assumed of its inside.
#[verifier::external_type_specification]
#[verifier::external_body]
pub struct ExDispatchError(DispatchError);

/// Why a request was refused.
#[derive(Clone, Copy, Debug, PartialEq, Eq, Structural)]
pub enum Error {
    /// The sender is not the holder of the sudo key.
    RequireSudo,
    /// The request is not signed.
    Unauthorized,
}

/// Notification of what was done.
#[derive(Debug)]
pub enum Event {
    /// A call was dispatched as root, with the given result.
    Sudid { sudo_result: Result<(), DispatchError> },
    /// The sudo key changed hands; `old_sudoer` held it before.
    KeyChanged { old_sudoer: Option<NodeId> },
    /// A call was dispatched in the name of another account, with the given
    /// result.
    SudoAsDone { sudo_result: Result<(), DispatchError> },
}

/// The holder of the sudo key at genesis.
#[derive(Clone, Copy, Debug, PartialEq, Eq, Structural)]
pub struct GenesisConfig {
    pub key: Option<NodeId>,
}

impl Default for GenesisConfig {
    /// Nobody holds the key.
    fn default() -> (r: GenesisConfig)
        ensures
            r.key is None,
    {
        GenesisConfig { key: None }
    }
}

impl GenesisConfig {
    /// The pallet at genesis.
    pub fn build(&self) -> (r: Pallet)
        ensures
            r.key() == self.key,
    {
        Pallet { key: self.key }
    }
}

/// The pallet's state: the holder of the sudo key, if there is one.
#[derive(Clone, Copy, Debug, PartialEq, Eq, Structural)]
pub struct Pallet {
    key: Option<NodeId>,
}

/// What a request from `origin` is answered with while `key` holds the sudo
/// key: the sender, if the request is signed by the holder of the key.
pub open spec fn sudoer(key: Option<NodeId>, origin: Origin) -> Result<NodeId, Error> {
    match origin {
        Origin::Signed(sender) => if key == Some(sender) {
            Ok(sender)
        } else {
            Err(Error::RequireSudo)
        },
        _ => Err(Error::Unauthorized),
    }
}

impl Pallet {
    /// The holder of the sudo key.
    pub closed spec fn key(self) -> Option<NodeId> {
        self.key
    }

    /// The holder of the sudo key.
    pub fn sudo_key(&self) -> (r: Option<NodeId>)
        ensures
            r == self.key(),
    {
        self.key
    }

    /// Checks that the request is signed by the holder of the sudo key.
    pub fn ensure_sudo(&self, origin: Origin) -> (r: Result<NodeId, Error>)
        ensures
            r == sudoer(self.key(), origin),
    {
        match origin {
            Origin::Signed(sender) => match self.key {
                Some(key) => if sender == key {
                    Ok(sender)
                } else {
                    Err(Error::RequireSudo)
                },
                None => Err(Error::RequireSudo),
            },
            _ => Err(Error::Unauthorized),
        }
    }

    /// Answers a request to dispatch a call as root: the holder of the sudo
    /// key gets the root origin to dispatch with.
    pub fn sudo(&self, origin: Origin) -> (r: Result<Origin, Error>)
        ensures
            r == (match sudoer(self.key(), origin) {
                Ok(_) => Ok::<Origin, Error>(Origin::Root),
                Err(e) => Err(e),
            }),
    {
        self.ensure_sudo(origin)?;
        Ok(Origin::Root)
    }

    /// As `sudo`; the weight that the sender states for the call plays no
    /// part in the decision.
    pub fn sudo_unchecked_weight(&self, origin: Origin, weight: u64) -> (r: Result<Origin, Error>)
        ensures
            r == (match sudoer(self.key(), origin) {
                Ok(_) => Ok::<Origin, Error>(Origin::Root),
                Err(e) => Err(e),
            }),
    {
        self.sudo(origin)
    }

    /// Hands the sudo key to `new`, on request of its holder, and returns
    /// the notification that names the holder before. A refused request
    /// changes nothing.
    pub fn set_key(&mut self, origin: Origin, new: NodeId) -> (r: Result<Event, Error>)
        ensures
            match sudoer(old(self).key(), origin) {
                Ok(_) => {
                    &&& r matches Ok(Event::KeyChanged { old_sudoer })
                    &&& old_sudoer == old(self).key()
                    &&& final(self).key() == Some(new)
                },
                Err(e) => r matches Err(refusal) && refusal == e && *final(self) == *old(self),
            },
    {
        match self.ensure_sudo(origin) {
            Ok(_) => {
                let old_sudoer = self.key;
                self.key = Some(new);
                Ok(Event::KeyChanged { old_sudoer })
            },
            Err(e) => Err(e),
        }
    }

    /// Answers a request to dispatch a call in the name of `who`: the holder
    /// of the sudo key gets the origin signed by `who` to dispatch with.
    pub fn sudo_as(&self, origin: Origin, who: NodeId) -> (r: Result<Origin, Error>)
        ensures
            r == (match sudoer(self.key(), origin) {
                Ok(_) => Ok::<Origin, Error>(Origin::Signed(who)),
                Err(e) => Err(e),
            }),
    {
        self.ensure_sudo(origin)?;
        Ok(Origin::Signed(who))
    }
}

} // verus!
