//! The access-grant contract's locally owned state: the configuration
//! surface (owner and peer contract addresses, set once at initialization
//! and updatable only by the registered owner), minimal user profiles, and
//! its own version bookkeeping.
//!
//! The grant ledger itself is a peer service; this registry only supplies
//! course existence and ownership facts to it.

use vstd::prelude::*;

use crate::Address;
use crate::schema::{Error, MigrationStatus, VERSION};
use crate::store::{KeyStore, Record, RecordV, StoreKey};
use crate::versioning::{
    is_version_compatible_strings, migrated_record, migration_status_chars, read_version_record,
    spec_version_record, version_compatible,
};

verus! {

/// Owner and peer contract addresses.
#[derive(Clone, Copy, Debug, PartialEq, Eq, Structural)]
pub struct AccessConfig {
    /// Identity that initialized the contract; the only one allowed to
    /// change this record afterwards.
    pub owner: Address,
    /// Address of the identity oracle answering admin checks.
    pub user_mgmt_addr: Address,
    /// Address of the course registry contract.
    pub course_registry_addr: Address,
}

/// Minimal on-chain user profile kept by the access contract.
#[derive(Clone, Debug, PartialEq, Eq)]
pub struct UserProfile {
    /// The user's identity.
    pub user: Address,
    /// Opaque reference to the full record in the off-chain database.
    pub off_chain_ref_id: String,
}

/// Mathematical image of an access-contract `UserProfile`.
pub struct UserProfileV {
    pub user: Address,
    pub off_chain_ref_id: Seq<char>,
}

impl View for UserProfile {
    type V = UserProfileV;

    open spec fn view(&self) -> UserProfileV {
        (UserProfileV { user: self.user, off_chain_ref_id: self.off_chain_ref_id@ })
    }
}

impl DeepView for UserProfile {
    type V = UserProfileV;

    open spec fn deep_view(&self) -> UserProfileV {
        self.view()
    }
}

impl UserProfile {
    /// Produces a profile with the same view.
    pub fn duplicate(&self) -> (r: UserProfile)
        ensures
            r@ == self@,
    {
        UserProfile { user: self.user, off_chain_ref_id: self.off_chain_ref_id.clone() }
    }
}

/// The stored configuration, if the contract was initialized.
pub open spec fn spec_config(m: Map<StoreKey, RecordV>) -> Option<AccessConfig> {
    if m.contains_key(StoreKey::ConfigKey) {
        match m[StoreKey::ConfigKey] {
            RecordV::ConfigRec(c) => Some(c),
            _ => None,
        }
    } else {
        None
    }
}

/// The profile stored for `a`, if any.
pub open spec fn access_profile_at(m: Map<StoreKey, RecordV>, a: Address) -> Option<UserProfileV> {
    if m.contains_key(StoreKey::AccessProfileKey(a)) {
        match m[StoreKey::AccessProfileKey(a)] {
            RecordV::AccessProfileRec(p) => Some(p),
            _ => None,
        }
    } else {
        None
    }
}

/// Typing of the access contract's records.
pub open spec fn access_records_wf(m: Map<StoreKey, RecordV>) -> bool {
    &&& m.contains_key(StoreKey::ConfigKey) ==> m[StoreKey::ConfigKey] is ConfigRec
    &&& m.contains_key(StoreKey::VersionKey) ==> m[StoreKey::VersionKey] is VersionRec
    &&& forall|a: Address|
        #[trigger] m.contains_key(StoreKey::AccessProfileKey(a)) ==> (m[StoreKey::AccessProfileKey(
            a,
        )] matches RecordV::AccessProfileRec(p) && p.user == a)
}

/// The access-grant contract state.
pub struct CourseAccessContract {
    store: KeyStore,
}

impl View for CourseAccessContract {
    type V = Map<StoreKey, RecordV>;

    closed spec fn view(&self) -> Map<StoreKey, RecordV> {
        self.store@
    }
}

impl CourseAccessContract {
    /// Internal invariant of the contract state.
    pub open spec fn wf(&self) -> bool {
        &&& self.inner_wf()
        &&& access_records_wf(self@)
    }

    /// Well-formedness of the underlying store.
    pub closed spec fn inner_wf(&self) -> bool {
        self.store.wf()
    }

    /// An uninitialized contract.
    pub fn new() -> (r: CourseAccessContract)
        ensures
            r.wf(),
            r@ == Map::<StoreKey, RecordV>::empty(),
    {
        CourseAccessContract { store: KeyStore::new() }
    }

    /// One-time constructor: records the owner and the peer contract
    /// addresses.  A second call fails and changes nothing.
    pub fn initialize(
        &mut self,
        caller: Address,
        user_mgmt_addr: Address,
        course_registry_addr: Address,
    ) -> (r: Result<(), Error>)
        requires
            old(self).wf(),
        ensures
            final(self).wf(),
            match r {
                Err(e) => {
                    &&& e == Error::AlreadyInitialized
                    &&& spec_config(old(self)@) is Some
                    &&& *final(self) == *old(self)
                },
                Ok(()) => {
                    &&& spec_config(old(self)@) is None
                    &&& final(self)@ == old(self)@.insert(
                        StoreKey::ConfigKey,
                        RecordV::ConfigRec(
                            (AccessConfig { owner: caller, user_mgmt_addr, course_registry_addr }),
                        ),
                    )
                },
            },
    {
        if self.store.has(StoreKey::ConfigKey) {
            return Err(Error::AlreadyInitialized);
        }
        self.store.set(
            StoreKey::ConfigKey,
            Record::ConfigRec(AccessConfig { owner: caller, user_mgmt_addr, course_registry_addr }),
        );
        Ok(())
    }

    /// Updates the peer contract addresses.  Only the registered owner may
    /// do so; the owner itself never changes.
    pub fn set_config(
        &mut self,
        caller: Address,
        user_mgmt_addr: Address,
        course_registry_addr: Address,
    ) -> (r: Result<(), Error>)
        requires
            old(self).wf(),
        ensures
            final(self).wf(),
            match r {
                Err(e) => {
                    &&& Some(e) == set_config_error(old(self)@, caller)
                    &&& *final(self) == *old(self)
                },
                Ok(()) => {
                    &&& set_config_error(old(self)@, caller) is None
                    &&& spec_config(old(self)@) matches Some(c) && final(self)@ == old(
                        self,
                    )@.insert(
                        StoreKey::ConfigKey,
                        RecordV::ConfigRec(
                            (AccessConfig { owner: c.owner, user_mgmt_addr, course_registry_addr }),
                        ),
                    )
                },
            },
    {
        let owner = match self.store.get(StoreKey::ConfigKey) {
            Some(Record::ConfigRec(c)) => c.owner,
            _ => {
                return Err(Error::NotInitialized);
            },
        };
        if owner.0 != caller.0 {
            return Err(Error::Unauthorized);
        }
        self.store.set(
            StoreKey::ConfigKey,
            Record::ConfigRec(AccessConfig { owner, user_mgmt_addr, course_registry_addr }),
        );
        Ok(())
    }

    /// Saves a minimal on-chain profile: the identity and an off-chain
    /// reference.  All personal data stays off-chain.
    pub fn save_user_profile(&mut self, off_chain_ref_id: String, user: Address) -> (r: Result<
        (),
        Error,
    >)
        requires
            old(self).wf(),
        ensures
            final(self).wf(),
            match r {
                Err(e) => {
                    &&& e == Error::OffChainRefIdRequired
                    &&& off_chain_ref_id@.len() == 0
                    &&& *final(self) == *old(self)
                },
                Ok(()) => {
                    &&& off_chain_ref_id@.len() > 0
                    &&& final(self)@ == old(self)@.insert(
                        StoreKey::AccessProfileKey(user),
                        RecordV::AccessProfileRec(
                            (UserProfileV { user, off_chain_ref_id: off_chain_ref_id@ }),
                        ),
                    )
                },
            },
    {
        if off_chain_ref_id.as_str().unicode_len() == 0 {
            return Err(Error::OffChainRefIdRequired);
        }
        self.store.set(
            StoreKey::AccessProfileKey(user),
            Record::AccessProfileRec(UserProfile { user, off_chain_ref_id }),
        );
        Ok(())
    }

    /// The deployed contract version.
    pub fn get_contract_version(&self) -> (r: String)
        ensures
            r@ == VERSION@,
    {
        String::from_str(VERSION)
    }

    /// Every version deployed so far, oldest first.
    pub fn get_version_history(&self) -> (r: Vec<String>)
        requires
            self.wf(),
        ensures
            r.deep_view() == spec_version_record(self@).history,
    {
        let rec = read_version_record(&self.store);
        rec.history
    }

    /// Whether data written under `from_version` can be used under
    /// `to_version`: true exactly when the major segments agree.
    pub fn is_version_compatible(&self, from_version: &String, to_version: &String) -> (r: bool)
        ensures
            r == version_compatible(from_version@, to_version@),
    {
        is_version_compatible_strings(from_version, to_version)
    }

    /// Migrates access data between versions, under the same rules as the
    /// registry's migration.
    pub fn migrate_access_data(
        &mut self,
        caller: Address,
        from_version: &String,
        to_version: &String,
        caller_is_admin: bool,
    ) -> (r: Result<bool, Error>)
        requires
            old(self).wf(),
        ensures
            final(self).wf(),
            match r {
                Err(e) => {
                    &&& e == Error::Unauthorized
                    &&& !caller_is_admin
                    &&& *final(self) == *old(self)
                },
                Ok(ok) => {
                    &&& caller_is_admin
                    &&& ok == version_compatible(from_version@, to_version@)
                    &&& final(self)@ == old(self)@.insert(
                        StoreKey::VersionKey,
                        RecordV::VersionRec(
                            migrated_record(
                                spec_version_record(old(self)@),
                                from_version@,
                                to_version@,
                            ),
                        ),
                    )
                },
            },
    {
        if !caller_is_admin {
            return Err(Error::Unauthorized);
        }
        let mut rec = read_version_record(&self.store);
        let ghost orig = rec@;
        let compatible = is_version_compatible_strings(from_version, to_version);
        if compatible {
            let ghost old_h = rec.history.deep_view();
            rec.history.push(to_version.clone());
            rec.status = MigrationStatus::Completed;
            proof {
                assert(rec.history.deep_view() =~= old_h.push(to_version@));
                assert(rec@ == migrated_record(orig, from_version@, to_version@));
            }
        } else {
            rec.status = MigrationStatus::Failed;
            proof {
                assert(rec@ == migrated_record(orig, from_version@, to_version@));
            }
        }
        self.store.set(StoreKey::VersionKey, Record::VersionRec(rec));
        Ok(compatible)
    }

    /// The outcome of the last migration, as a word.
    pub fn get_migration_status(&self) -> (r: String)
        requires
            self.wf(),
        ensures
            r@ == migration_status_chars(spec_version_record(self@).status),
    {
        let rec = read_version_record(&self.store);
        match rec.status {
            MigrationStatus::Idle => String::from_str("none"),
            MigrationStatus::Completed => String::from_str("completed"),
            MigrationStatus::Failed => String::from_str("failed"),
        }
    }
}

/// The error `set_config` reports, if any.
pub open spec fn set_config_error(m: Map<StoreKey, RecordV>, caller: Address) -> Option<Error> {
    match spec_config(m) {
        None => Some(Error::NotInitialized),
        Some(c) => if c.owner != caller {
            Some(Error::Unauthorized)
        } else {
            None
        },
    }
}

} // verus!
