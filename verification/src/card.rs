//! Model of one contactless-card presentation: the card session.
//!
//! A card holds a root context (the picc level, application id
//! [`PICC_APPLICATION`]) and a set of applications, each an isolated
//! namespace with its own master key, key settings and fixed-size data
//! files.  Selecting an application switches context and invalidates any
//! session; authenticating against the current context's master key
//! establishes a session key, which file access under enciphered
//! communication and all privileged commands require.
//!
//! The model keeps the card's durable state (keys, settings, applications,
//! files) as plain data, so every command's effect and every error it can
//! report stand in its contract.  Each application is tracked through its
//! master key (key number zero), the only key the protocols above use;
//! physical-transport faults (tag removed, timeout) are outside the model.

use vstd::prelude::*;

use crate::bytes::bytes_eq;
use crate::bytes::copy_bytes;
use crate::bytes::zero_bytes;

verus! {

/// Application id of the card's root/management context.
pub const PICC_APPLICATION: u32 = 0;

/// Errors a card command can report.
#[derive(Clone, Copy, Debug, PartialEq, Eq, Structural)]
pub enum CardError {
    /// Authentication failed: wrong key, wrong key number, or stale session.
    AuthFailed,
    /// The named application does not exist on the card.
    ApplicationNotFound,
    /// An application with that id already exists.
    DuplicateApplication,
    /// The named file does not exist in the selected application.
    FileNotFound,
    /// A file with that id already exists in the selected application.
    DuplicateFile,
    /// The command needs rights the current session does not hold.
    PermissionDenied,
    /// A read or write reaches beyond the file's fixed size.
    OutOfBounds,
}

/// Who may exercise a right guarded by the key settings.
#[derive(Clone, Copy, Debug, PartialEq, Eq, Structural)]
pub enum KeySettingsAccessRights {
    MasterKey,
    Free,
}

/// An application's key policy.
#[derive(Clone, Copy, Debug, PartialEq, Eq, Structural)]
pub struct KeySettings {
    pub access_rights: KeySettingsAccessRights,
    /// When false, the settings are locked: no further
    /// [`Card::change_key_settings`] succeeds.
    pub master_key_settings_changeable: bool,
    pub master_key_not_required_create_delete: bool,
    pub master_key_not_required_directory_access: bool,
    pub master_key_changeable: bool,
}

/// Communication mode of a data file.
#[derive(Clone, Copy, Debug, PartialEq, Eq, Structural)]
pub enum FileSettingsCommunication {
    Plain,
    Enciphered,
}

/// Who may exercise one file right.
#[derive(Clone, Copy, Debug, PartialEq, Eq, Structural)]
pub enum FileSettingsAccessRightsKey {
    MasterKey,
    Free,
}

/// The four access rights of a data file.
#[derive(Clone, Copy, Debug, PartialEq, Eq, Structural)]
pub struct FileSettingsAccessRights {
    pub read: FileSettingsAccessRightsKey,
    pub write: FileSettingsAccessRightsKey,
    pub read_write: FileSettingsAccessRightsKey,
    pub change_access: FileSettingsAccessRightsKey,
}

/// How data travels for one read or write: in the clear, or encrypted under
/// a session key.
#[derive(Debug)]
pub enum Encryption {
    Plain,
    Encrypted(Vec<u8>),
}

/// A fixed-size data file inside an application.
#[derive(Debug)]
pub struct DataFile {
    pub id: u8,
    pub comm: FileSettingsCommunication,
    pub rights: FileSettingsAccessRights,
    /// Size fixed at creation; `data` always holds exactly this many bytes.
    pub size: u32,
    pub data: Vec<u8>,
}

/// An application: an isolated namespace with a master key and files.
#[derive(Debug)]
pub struct Application {
    pub id: u32,
    /// The application's master key (key number zero).
    pub key: Vec<u8>,
    pub settings: KeySettings,
    pub files: Vec<DataFile>,
}

/// The state of one card presentation.
#[derive(Debug)]
pub struct Card {
    /// Hardware answer-to-reset, immutable for the presentation.
    pub atr: Vec<u8>,
    /// Chip version id, immutable for the presentation.
    pub version_id: Vec<u8>,
    /// Master key of the picc (root) context.
    pub picc_key: Vec<u8>,
    /// Key policy of the picc context.
    pub picc_settings: KeySettings,
    /// The applications on the card, ids pairwise distinct and never
    /// [`PICC_APPLICATION`].
    pub apps: Vec<Application>,
    /// Currently selected application id; [`PICC_APPLICATION`] for the root
    /// context.
    pub selected: u32,
    /// Session key of the current authentication, if any.  Any application
    /// switch or key change clears it.
    pub session: Option<Vec<u8>>,
}

/// The 16-zero-byte factory default key.
pub open spec fn zeros16() -> Seq<u8> {
    Seq::new(16, |i: int| 0u8)
}

/// Factory key settings: everything master-key guarded, settings still
/// changeable.
pub open spec fn spec_factory_settings() -> KeySettings {
    KeySettings {
        access_rights: KeySettingsAccessRights::MasterKey,
        master_key_settings_changeable: true,
        master_key_not_required_create_delete: false,
        master_key_not_required_directory_access: false,
        master_key_changeable: true,
    }
}

impl DataFile {
    /// The file's data never grows or shrinks after creation.
    pub open spec fn wf(self) -> bool {
        self.data@.len() == self.size as int
    }
}

impl Application {
    pub open spec fn has_file(self, fid: u8) -> bool {
        exists|i: int| 0 <= i < self.files@.len() && self.files@[i].id == fid
    }

    pub open spec fn file_idx(self, fid: u8) -> int {
        choose|i: int| 0 <= i < self.files@.len() && self.files@[i].id == fid
    }

    pub open spec fn file_at(self, fid: u8) -> DataFile {
        self.files@[self.file_idx(fid)]
    }

    pub open spec fn wf(self) -> bool {
        &&& self.id != PICC_APPLICATION
        &&& forall|i: int, j: int|
            0 <= i < j < self.files@.len() ==> self.files@[i].id != self.files@[j].id
        &&& forall|i: int| 0 <= i < self.files@.len() ==> (#[trigger] self.files@[i]).wf()
    }

    /// In a well-formed application, any index holding `fid` is the index
    /// `file_at` speaks of.
    pub proof fn lemma_file_idx(self, j: int)
        requires
            self.wf(),
            0 <= j < self.files@.len(),
        ensures
            self.has_file(self.files@[j].id),
            self.file_idx(self.files@[j].id) == j,
            self.file_at(self.files@[j].id) == self.files@[j],
    {
        let fid = self.files@[j].id;
        assert(self.has_file(fid));
        let i = self.file_idx(fid);
        assert(0 <= i < self.files@.len() && self.files@[i].id == fid);
        if i != j {
            if i < j {
                assert(self.files@[i].id != self.files@[j].id);
            } else {
                assert(self.files@[j].id != self.files@[i].id);
            }
            assert(false);
        }
    }

    /// Index of the file with the given id, if any.
    fn find_file(&self, fid: u8) -> (r: Option<usize>)
        ensures
            match r {
                Some(i) => i < self.files@.len() && self.files@[i as int].id == fid,
                None => !self.has_file(fid),
            },
    {
        let mut i: usize = 0;
        while i < self.files.len()
            invariant
                i <= self.files@.len(),
                forall|j: int| 0 <= j < i ==> self.files@[j].id != fid,
            decreases self.files@.len() - i,
        {
            if self.files[i].id == fid {
                return Some(i);
            }
            i += 1;
        }
        None
    }
}

impl Card {
    pub open spec fn has_app(self, aid: u32) -> bool {
        exists|i: int| 0 <= i < self.apps@.len() && self.apps@[i].id == aid
    }

    pub open spec fn app_idx(self, aid: u32) -> int {
        choose|i: int| 0 <= i < self.apps@.len() && self.apps@[i].id == aid
    }

    pub open spec fn app_at(self, aid: u32) -> Application {
        self.apps@[self.app_idx(aid)]
    }

    pub open spec fn wf(self) -> bool {
        &&& forall|i: int, j: int|
            0 <= i < j < self.apps@.len() ==> self.apps@[i].id != self.apps@[j].id
        &&& forall|i: int| 0 <= i < self.apps@.len() ==> (#[trigger] self.apps@[i]).wf()
        &&& self.selected == PICC_APPLICATION || self.has_app(self.selected)
    }

    /// A session established by authenticating with exactly this key material.
    pub open spec fn session_valid(self, sk: Seq<u8>) -> bool {
        self.session matches Some(k) && k@ == sk
    }

    pub open spec fn authenticated(self) -> bool {
        self.session is Some
    }

    /// The master key of the current context.
    pub open spec fn current_key(self) -> Seq<u8> {
        if self.selected == PICC_APPLICATION {
            self.picc_key@
        } else {
            self.app_at(self.selected).key@
        }
    }

    /// The key settings of the current context.
    pub open spec fn current_settings(self) -> KeySettings {
        if self.selected == PICC_APPLICATION {
            self.picc_settings
        } else {
            self.app_at(self.selected).settings
        }
    }

    /// Whether `authenticate(key_no, key)` succeeds on this card state.
    pub open spec fn auth_accepts(self, key_no: u8, key: Seq<u8>) -> bool {
        key_no == 0 && key == self.current_key()
    }

    /// Whether `change_key_settings` succeeds under session key `sk`.
    pub open spec fn change_settings_accepted(self, sk: Seq<u8>) -> bool {
        self.session_valid(sk) && self.current_settings().master_key_settings_changeable
    }

    /// The fields a command never touches: the hardware identity and, for
    /// most commands, keys and contents.
    pub open spec fn same_identity(self, other: Card) -> bool {
        &&& self.atr@ == other.atr@
        &&& self.version_id@ == other.version_id@
    }

    /// Durable state equal: everything but the selection and the session.
    pub open spec fn same_durable(self, other: Card) -> bool {
        &&& self.same_identity(other)
        &&& self.picc_key@ == other.picc_key@
        &&& self.picc_settings == other.picc_settings
        &&& self.apps@ == other.apps@
    }

    /// In a well-formed card, any index holding `aid` is the index `app_at`
    /// speaks of.
    pub proof fn lemma_app_idx(self, j: int)
        requires
            self.wf(),
            0 <= j < self.apps@.len(),
        ensures
            self.has_app(self.apps@[j].id),
            self.app_idx(self.apps@[j].id) == j,
            self.app_at(self.apps@[j].id) == self.apps@[j],
    {
        let aid = self.apps@[j].id;
        assert(self.has_app(aid));
        let i = self.app_idx(aid);
        assert(0 <= i < self.apps@.len() && self.apps@[i].id == aid);
        if i != j {
            if i < j {
                assert(self.apps@[i].id != self.apps@[j].id);
            } else {
                assert(self.apps@[j].id != self.apps@[i].id);
            }
            assert(false);
        }
    }

    /// Index of the application with the given id, if any.
    fn find_app(&self, aid: u32) -> (r: Option<usize>)
        ensures
            match r {
                Some(i) => i < self.apps@.len() && self.apps@[i as int].id == aid,
                None => !self.has_app(aid),
            },
    {
        let mut i: usize = 0;
        while i < self.apps.len()
            invariant
                i <= self.apps@.len(),
                forall|j: int| 0 <= j < i ==> self.apps@[j].id != aid,
            decreases self.apps@.len() - i,
        {
            if self.apps[i].id == aid {
                return Some(i);
            }
            i += 1;
        }
        None
    }

    /// A factory-fresh card: picc master key at the 16-zero-byte default,
    /// settings changeable, no applications, root context selected.
    pub fn new(atr: Vec<u8>, version_id: Vec<u8>) -> (c: Card)
        ensures
            c.wf(),
            c.atr@ == atr@,
            c.version_id@ == version_id@,
            c.picc_key@ == zeros16(),
            c.picc_settings == spec_factory_settings(),
            c.apps@.len() == 0,
            c.selected == PICC_APPLICATION,
            c.session is None,
    {
        Card {
            atr,
            version_id,
            picc_key: zero_bytes(16),
            picc_settings: KeySettings {
                access_rights: KeySettingsAccessRights::MasterKey,
                master_key_settings_changeable: true,
                master_key_not_required_create_delete: false,
                master_key_not_required_directory_access: false,
                master_key_changeable: true,
            },
            apps: Vec::new(),
            selected: PICC_APPLICATION,
            session: None,
        }
    }

    /// The hardware answer-to-reset.
    pub fn get_atr(&self) -> (r: Vec<u8>)
        ensures
            r@ == self.atr@,
    {
        copy_bytes(&self.atr)
    }

    /// The chip version id.
    pub fn get_version_id(&self) -> (r: Vec<u8>)
        ensures
            r@ == self.version_id@,
    {
        copy_bytes(&self.version_id)
    }

    /// Switch context to the given application; the root context
    /// [`PICC_APPLICATION`] always exists.  Any session is invalidated, so
    /// re-authentication is mandatory after every switch.
    pub fn select_application(&mut self, aid: u32) -> (r: Result<(), CardError>)
        requires
            old(self).wf(),
        ensures
            final(self).wf(),
            final(self).same_durable(*old(self)),
            aid == PICC_APPLICATION || old(self).has_app(aid) ==> r == Ok::<(), CardError>(())
                && final(self).selected == aid && final(self).session is None,
            !(aid == PICC_APPLICATION || old(self).has_app(aid)) ==> r == Err::<(),
                CardError>(CardError::ApplicationNotFound) && *final(self) == *old(self),
    {
        if aid == PICC_APPLICATION {
            self.selected = aid;
            self.session = None;
            return Ok(());
        }
        match self.find_app(aid) {
            Some(j) => {
                proof {
                    self.lemma_app_idx(j as int);
                }
                self.selected = aid;
                self.session = None;
                Ok(())
            },
            None => Err(CardError::ApplicationNotFound),
        }
    }

    /// Challenge-response key authentication against the current context's
    /// master key.  On success the returned session key equals the key
    /// material authenticated with; on failure any prior session is lost.
    pub fn authenticate(&mut self, key_no: u8, key: &Vec<u8>) -> (r: Result<Vec<u8>, CardError>)
        requires
            old(self).wf(),
        ensures
            final(self).wf(),
            final(self).same_durable(*old(self)),
            final(self).selected == old(self).selected,
            old(self).auth_accepts(key_no, key@) ==> (r matches Ok(sk) && sk@ == key@
                && final(self).session_valid(key@)),
            !old(self).auth_accepts(key_no, key@) ==> r == Err::<Vec<u8>,
                CardError>(CardError::AuthFailed) && final(self).session is None,
    {
        if key_no != 0 {
            self.session = None;
            return Err(CardError::AuthFailed);
        }
        let matches_key = if self.selected == PICC_APPLICATION {
            bytes_eq(&self.picc_key, key)
        } else {
            match self.find_app(self.selected) {
                Some(j) => {
                    proof {
                        self.lemma_app_idx(j as int);
                    }
                    let a = &self.apps[j];
                    bytes_eq(&a.key, key)
                },
                None => {
                    assert(false);
                    false
                },
            }
        };
        if matches_key {
            self.session = Some(copy_bytes(key));
            Ok(copy_bytes(key))
        } else {
            self.session = None;
            Err(CardError::AuthFailed)
        }
    }

    /// Whether application create and delete are currently permitted:
    /// root context selected and a session established.
    pub open spec fn lifecycle_permitted(self) -> bool {
        self.selected == PICC_APPLICATION && self.authenticated()
    }

    /// Create a fresh application under the given id.  The new application
    /// starts with the 16-zero-byte factory default master key and no files.
    /// The model tracks the master key only, whatever key count the
    /// application is configured with.
    pub fn create_application(
        &mut self,
        aid: u32,
        settings: KeySettings,
        _num_keys: u8,
    ) -> (r: Result<(), CardError>)
        requires
            old(self).wf(),
        ensures
            final(self).wf(),
            final(self).same_identity(*old(self)),
            final(self).selected == old(self).selected,
            final(self).session == old(self).session,
            final(self).picc_key@ == old(self).picc_key@,
            final(self).picc_settings == old(self).picc_settings,
            !old(self).lifecycle_permitted() ==> r == Err::<(), CardError>(
                CardError::PermissionDenied,
            ) && *final(self) == *old(self),
            old(self).lifecycle_permitted() && (aid == PICC_APPLICATION || old(self).has_app(aid))
                ==> r == Err::<(), CardError>(CardError::DuplicateApplication) && *final(self)
                == *old(self),
            old(self).lifecycle_permitted() && aid != PICC_APPLICATION && !old(self).has_app(aid)
                ==> (r == Ok::<(), CardError>(())
                    && final(self).apps@.len() == old(self).apps@.len() + 1
                    && final(self).apps@.drop_last() == old(self).apps@
                    && final(self).apps@.last().id == aid
                    && final(self).apps@.last().key@ == zeros16()
                    && final(self).apps@.last().settings == settings
                    && final(self).apps@.last().files@.len() == 0),
    {
        if !(self.selected == PICC_APPLICATION && self.session.is_some()) {
            return Err(CardError::PermissionDenied);
        }
        if aid == PICC_APPLICATION {
            return Err(CardError::DuplicateApplication);
        }
        if self.find_app(aid).is_some() {
            return Err(CardError::DuplicateApplication);
        }
        let app = Application {
            id: aid,
            key: zero_bytes(16),
            settings,
            files: Vec::new(),
        };
        self.apps.push(app);
        proof {
            assert(self.apps@.drop_last() =~= old(self).apps@);
            assert(self.apps@.last().key@ =~= zeros16());
        }
        Ok(())
    }

    /// Remove the named application and everything in it.
    pub fn delete_application(&mut self, aid: u32) -> (r: Result<(), CardError>)
        requires
            old(self).wf(),
        ensures
            final(self).wf(),
            final(self).same_identity(*old(self)),
            final(self).selected == old(self).selected,
            final(self).session == old(self).session,
            final(self).picc_key@ == old(self).picc_key@,
            final(self).picc_settings == old(self).picc_settings,
            !old(self).lifecycle_permitted() ==> r == Err::<(), CardError>(
                CardError::PermissionDenied,
            ) && *final(self) == *old(self),
            old(self).lifecycle_permitted() && !old(self).has_app(aid) ==> r == Err::<(),
                CardError>(CardError::ApplicationNotFound) && *final(self) == *old(self),
            old(self).lifecycle_permitted() && old(self).has_app(aid) ==> (r == Ok::<(),
                CardError>(()) && final(self).apps@ == old(self).apps@.remove(
                old(self).app_idx(aid),
            )),
    {
        if !(self.selected == PICC_APPLICATION && self.session.is_some()) {
            return Err(CardError::PermissionDenied);
        }
        let j = match self.find_app(aid) {
            Some(j) => j,
            None => {
                return Err(CardError::ApplicationNotFound);
            },
        };
        proof {
            self.lemma_app_idx(j as int);
            old(self).apps@.remove_ensures(j as int);
        }
        self.apps.remove(j);
        proof {
            let s0 = old(self).apps@;
            let s1 = self.apps@;
            assert forall|x: int, y: int| 0 <= x < y < s1.len() implies s1[x].id != s1[y].id by {
                let x0 = if x < j { x } else { x + 1 };
                let y0 = if y < j { y } else { y + 1 };
                assert(s1[x] == s0[x0]);
                assert(s1[y] == s0[y0]);
            }
            assert forall|i: int| 0 <= i < s1.len() implies (#[trigger] s1[i]).wf() by {
                let i0 = if i < j { i } else { i + 1 };
                assert(s1[i] == s0[i0]);
            }
        }
        Ok(())
    }

    /// Rotate the current context's master key.  Requires a live session and
    /// knowledge of the old key; on success the card invalidates the session,
    /// so re-authentication with the new key is mandatory.
    pub fn change_key(
        &mut self,
        key_no: u8,
        _current_key_known: bool,
        old_key: &Vec<u8>,
        new_key: &Vec<u8>,
        session_key: &Vec<u8>,
    ) -> (r: Result<(), CardError>)
        requires
            old(self).wf(),
        ensures
            final(self).wf(),
            final(self).same_identity(*old(self)),
            final(self).selected == old(self).selected,
            final(self).picc_settings == old(self).picc_settings,
            !(old(self).session_valid(session_key@) && key_no == 0 && old_key@ == old(
                self,
            ).current_key()) ==> r == Err::<(), CardError>(CardError::AuthFailed) && *final(self)
                == *old(self),
            old(self).session_valid(session_key@) && key_no == 0 && old_key@ == old(
                self,
            ).current_key() ==> (r == Ok::<(), CardError>(()) && final(self).session is None
                && final(self).current_key() == new_key@ && (if old(self).selected
                == PICC_APPLICATION {
                final(self).apps@ == old(self).apps@ && final(self).picc_key@ == new_key@
            } else {
                final(self).picc_key@ == old(self).picc_key@ && final(self).apps@.len() == old(
                    self,
                ).apps@.len() && (forall|i: int|
                    0 <= i < final(self).apps@.len() && i != old(self).app_idx(old(self).selected)
                        ==> final(self).apps@[i] == old(self).apps@[i]) && {
                    let j = old(self).app_idx(old(self).selected);
                    let a0 = old(self).apps@[j];
                    let a1 = final(self).apps@[j];
                    a1.id == a0.id && a1.key@ == new_key@ && a1.settings == a0.settings
                        && a1.files@ == a0.files@
                }
            })),
    {
        let session_ok = match &self.session {
            Some(k) => bytes_eq(k, session_key),
            None => false,
        };
        if !session_ok || key_no != 0 {
            return Err(CardError::AuthFailed);
        }
        if self.selected == PICC_APPLICATION {
            if !bytes_eq(&self.picc_key, old_key) {
                return Err(CardError::AuthFailed);
            }
            self.picc_key = copy_bytes(new_key);
            self.session = None;
            return Ok(());
        }
        let j = match self.find_app(self.selected) {
            Some(j) => j,
            None => {
                assert(false);
                return Err(CardError::AuthFailed);
            },
        };
        proof {
            self.lemma_app_idx(j as int);
        }
        let key_ok = {
            let a = &self.apps[j];
            bytes_eq(&a.key, old_key)
        };
        if !key_ok {
            return Err(CardError::AuthFailed);
        }
        let mut a = self.apps.remove(j);
        a.key = copy_bytes(new_key);
        self.apps.insert(j, a);
        self.session = None;
        proof {
            let s0 = old(self).apps@;
            let s1 = self.apps@;
            assert(s1 =~= s0.update(j as int, s1[j as int]));
            self.lemma_app_idx(j as int);
        }
        Ok(())
    }

    /// Replace the current context's key settings.  Fails once the settings
    /// have been locked (`master_key_settings_changeable == false`): locking
    /// is a one-way transition.
    pub fn change_key_settings(
        &mut self,
        new_settings: KeySettings,
        session_key: &Vec<u8>,
    ) -> (r: Result<(), CardError>)
        requires
            old(self).wf(),
        ensures
            final(self).wf(),
            final(self).same_identity(*old(self)),
            final(self).selected == old(self).selected,
            final(self).session == old(self).session,
            final(self).picc_key@ == old(self).picc_key@,
            !old(self).session_valid(session_key@) ==> r == Err::<(), CardError>(
                CardError::AuthFailed,
            ) && *final(self) == *old(self),
            old(self).session_valid(session_key@) && !old(
                self,
            ).current_settings().master_key_settings_changeable ==> r == Err::<(), CardError>(
                CardError::PermissionDenied,
            ) && *final(self) == *old(self),
            old(self).change_settings_accepted(session_key@) ==> (r == Ok::<(), CardError>(())
                && final(self).current_settings() == new_settings && (if old(self).selected
                == PICC_APPLICATION {
                final(self).apps@ == old(self).apps@
            } else {
                final(self).picc_settings == old(self).picc_settings && final(self).apps@.len()
                    == old(self).apps@.len() && (forall|i: int|
                    0 <= i < final(self).apps@.len() && i != old(self).app_idx(old(self).selected)
                        ==> final(self).apps@[i] == old(self).apps@[i]) && {
                    let j = old(self).app_idx(old(self).selected);
                    let a0 = old(self).apps@[j];
                    let a1 = final(self).apps@[j];
                    a1.id == a0.id && a1.key@ == a0.key@ && a1.settings == new_settings
                        && a1.files@ == a0.files@
                }
            })),
    {
        let session_ok = match &self.session {
            Some(k) => bytes_eq(k, session_key),
            None => false,
        };
        if !session_ok {
            return Err(CardError::AuthFailed);
        }
        if self.selected == PICC_APPLICATION {
            if !self.picc_settings.master_key_settings_changeable {
                return Err(CardError::PermissionDenied);
            }
            self.picc_settings = new_settings;
            return Ok(());
        }
        let j = match self.find_app(self.selected) {
            Some(j) => j,
            None => {
                assert(false);
                return Err(CardError::AuthFailed);
            },
        };
        proof {
            self.lemma_app_idx(j as int);
        }
        let changeable = {
            let a = &self.apps[j];
            a.settings.master_key_settings_changeable
        };
        if !changeable {
            return Err(CardError::PermissionDenied);
        }
        let mut a = self.apps.remove(j);
        a.settings = new_settings;
        self.apps.insert(j, a);
        proof {
            let s0 = old(self).apps@;
            let s1 = self.apps@;
            assert(s1 =~= s0.update(j as int, s1[j as int]));
            self.lemma_app_idx(j as int);
        }
        Ok(())
    }

    /// Whether a write to `f` under `enc` is allowed on this card state:
    /// enciphered access needs a live session matching the handed session
    /// key; plain access needs a plain-mode file with a free write right.
    pub open spec fn write_allowed(self, f: DataFile, enc: Encryption) -> bool {
        match enc {
            Encryption::Plain => f.comm == FileSettingsCommunication::Plain && f.rights.write
                == FileSettingsAccessRightsKey::Free,
            Encryption::Encrypted(sk) => self.session_valid(sk@),
        }
    }

    /// The read counterpart of [`Card::write_allowed`].
    pub open spec fn read_allowed(self, f: DataFile, enc: Encryption) -> bool {
        match enc {
            Encryption::Plain => f.comm == FileSettingsCommunication::Plain && f.rights.read
                == FileSettingsAccessRightsKey::Free,
            Encryption::Encrypted(sk) => self.session_valid(sk@),
        }
    }

    /// Allocate a fixed-size data file, zero-filled, in the selected
    /// application.  The size never changes afterwards.
    pub fn create_std_data_file(
        &mut self,
        file_id: u8,
        comm: FileSettingsCommunication,
        rights: FileSettingsAccessRights,
        size: u32,
    ) -> (r: Result<(), CardError>)
        requires
            old(self).wf(),
        ensures
            final(self).wf(),
            final(self).same_identity(*old(self)),
            final(self).selected == old(self).selected,
            final(self).session == old(self).session,
            final(self).picc_key@ == old(self).picc_key@,
            final(self).picc_settings == old(self).picc_settings,
            !(old(self).selected != PICC_APPLICATION && old(self).authenticated()) ==> r
                == Err::<(), CardError>(CardError::PermissionDenied) && *final(self) == *old(self),
            old(self).selected != PICC_APPLICATION && old(self).authenticated() && old(self).app_at(
                old(self).selected,
            ).has_file(file_id) ==> r == Err::<(), CardError>(CardError::DuplicateFile)
                && *final(self) == *old(self),
            old(self).selected != PICC_APPLICATION && old(self).authenticated() && !old(
                self,
            ).app_at(old(self).selected).has_file(file_id) ==> (r == Ok::<(), CardError>(()) && {
                let j = old(self).app_idx(old(self).selected);
                let a0 = old(self).apps@[j];
                let a1 = final(self).apps@[j];
                &&& final(self).apps@.len() == old(self).apps@.len()
                &&& forall|i: int|
                    0 <= i < final(self).apps@.len() && i != j ==> final(self).apps@[i] == old(
                        self,
                    ).apps@[i]
                &&& a1.id == a0.id
                &&& a1.key@ == a0.key@
                &&& a1.settings == a0.settings
                &&& a1.files@.len() == a0.files@.len() + 1
                &&& a1.files@.drop_last() == a0.files@
                &&& a1.files@.last().id == file_id
                &&& a1.files@.last().comm == comm
                &&& a1.files@.last().rights == rights
                &&& a1.files@.last().size == size
                &&& a1.files@.last().data@ == Seq::new(size as nat, |i: int| 0u8)
            }),
    {
        if self.selected == PICC_APPLICATION || self.session.is_none() {
            return Err(CardError::PermissionDenied);
        }
        let j = match self.find_app(self.selected) {
            Some(j) => j,
            None => {
                assert(false);
                return Err(CardError::PermissionDenied);
            },
        };
        proof {
            self.lemma_app_idx(j as int);
        }
        let duplicate = {
            let a = &self.apps[j];
            a.find_file(file_id).is_some()
        };
        if duplicate {
            return Err(CardError::DuplicateFile);
        }
        let mut a = self.apps.remove(j);
        let file = DataFile {
            id: file_id,
            comm,
            rights,
            size,
            data: zero_bytes(size as usize),
        };
        a.files.push(file);
        self.apps.insert(j, a);
        proof {
            let s0 = old(self).apps@;
            let s1 = self.apps@;
            assert(s1 =~= s0.update(j as int, s1[j as int]));
            assert(s1[j as int].files@.drop_last() =~= s0[j as int].files@);
            assert(s1[j as int].files@.last().data@ =~= Seq::new(size as nat, |i: int| 0u8));
            self.lemma_app_idx(j as int);
        }
        Ok(())
    }

    /// Write `data` at `offset` into the named file of the selected
    /// application.  The write never resizes the file.
    pub fn write_data(
        &mut self,
        file_id: u8,
        offset: u32,
        data: &Vec<u8>,
        enc: Encryption,
    ) -> (r: Result<(), CardError>)
        requires
            old(self).wf(),
        ensures
            final(self).wf(),
            final(self).same_identity(*old(self)),
            final(self).selected == old(self).selected,
            final(self).session == old(self).session,
            final(self).picc_key@ == old(self).picc_key@,
            final(self).picc_settings == old(self).picc_settings,
            old(self).selected == PICC_APPLICATION ==> r == Err::<(), CardError>(
                CardError::PermissionDenied,
            ) && *final(self) == *old(self),
            old(self).selected != PICC_APPLICATION && !old(self).app_at(
                old(self).selected,
            ).has_file(file_id) ==> r == Err::<(), CardError>(CardError::FileNotFound)
                && *final(self) == *old(self),
            ({
                let f = old(self).app_at(old(self).selected).file_at(file_id);
                old(self).selected != PICC_APPLICATION && old(self).app_at(
                    old(self).selected,
                ).has_file(file_id) && !old(self).write_allowed(f, enc) ==> (*final(self) == *old(
                    self,
                ) && (enc is Plain ==> r == Err::<(), CardError>(CardError::PermissionDenied)) && (
                enc is Encrypted ==> r == Err::<(), CardError>(CardError::AuthFailed)))
            }),
            ({
                let f = old(self).app_at(old(self).selected).file_at(file_id);
                old(self).selected != PICC_APPLICATION && old(self).app_at(
                    old(self).selected,
                ).has_file(file_id) && old(self).write_allowed(f, enc) && !(offset <= f.size
                    && data@.len() <= f.size - offset) ==> r == Err::<(), CardError>(
                    CardError::OutOfBounds,
                ) && *final(self) == *old(self)
            }),
            ({
                let j = old(self).app_idx(old(self).selected);
                let a0 = old(self).apps@[j];
                let k = a0.file_idx(file_id);
                let f = a0.files@[k];
                old(self).selected != PICC_APPLICATION && a0.has_file(file_id) && old(
                    self,
                ).write_allowed(f, enc) && offset <= f.size && data@.len() <= f.size - offset ==> (
                r == Ok::<(), CardError>(()) && {
                    let a1 = final(self).apps@[j];
                    let f1 = a1.files@[k];
                    &&& final(self).apps@.len() == old(self).apps@.len()
                    &&& forall|i: int|
                        0 <= i < final(self).apps@.len() && i != j ==> final(self).apps@[i] == old(
                            self,
                        ).apps@[i]
                    &&& a1.id == a0.id
                    &&& a1.key@ == a0.key@
                    &&& a1.settings == a0.settings
                    &&& a1.files@.len() == a0.files@.len()
                    &&& forall|i: int|
                        0 <= i < a1.files@.len() && i != k ==> a1.files@[i] == a0.files@[i]
                    &&& f1.id == f.id
                    &&& f1.comm == f.comm
                    &&& f1.rights == f.rights
                    &&& f1.size == f.size
                    &&& f1.data@ == f.data@.take(offset as int) + data@ + f.data@.skip(
                        offset + data@.len(),
                    )
                })
            }),
    {
        if self.selected == PICC_APPLICATION {
            return Err(CardError::PermissionDenied);
        }
        let j = match self.find_app(self.selected) {
            Some(j) => j,
            None => {
                assert(false);
                return Err(CardError::PermissionDenied);
            },
        };
        proof {
            self.lemma_app_idx(j as int);
        }
        let k = {
            let a = &self.apps[j];
            match a.find_file(file_id) {
                Some(k) => k,
                None => {
                    return Err(CardError::FileNotFound);
                },
            }
        };
        proof {
            self.apps@[j as int].lemma_file_idx(k as int);
        }
        let allowed = {
            let a = &self.apps[j];
            let f = &a.files[k];
            match &enc {
                Encryption::Plain => f.comm == FileSettingsCommunication::Plain && f.rights.write
                    == FileSettingsAccessRightsKey::Free,
                Encryption::Encrypted(sk) => match &self.session {
                    Some(s) => bytes_eq(s, sk),
                    None => false,
                },
            }
        };
        if !allowed {
            return match enc {
                Encryption::Plain => Err(CardError::PermissionDenied),
                Encryption::Encrypted(_) => Err(CardError::AuthFailed),
            };
        }
        let in_bounds = {
            let a = &self.apps[j];
            let f = &a.files[k];
            offset <= f.size && data.len() <= (f.size - offset) as usize
        };
        if !in_bounds {
            return Err(CardError::OutOfBounds);
        }
        let ghost f0 = self.apps@[j as int].files@[k as int];
        let mut a = self.apps.remove(j);
        let mut f = a.files.remove(k);
        let off = offset as usize;
        let mut i: usize = 0;
        while i < data.len()
            invariant
                i <= data@.len(),
                off == offset,
                off + data@.len() <= f.data@.len(),
                off + data@.len() <= u32::MAX,
                f.data@.len() == f0.data@.len(),
                f.id == f0.id,
                f.comm == f0.comm,
                f.rights == f0.rights,
                f.size == f0.size,
                forall|x: int|
                    0 <= x < f.data@.len() && !(off <= x < off + i) ==> f.data@[x] == f0.data@[x],
                forall|x: int| 0 <= x < i ==> f.data@[off + x] == data@[x],
            decreases data@.len() - i,
        {
            f.data[off + i] = data[i];
            i += 1;
        }
        proof {
            let f0 = old(self).apps@[j as int].files@[k as int];
            assert(f.data@ =~= f0.data@.take(offset as int) + data@ + f0.data@.skip(
                offset + data@.len(),
            ));
        }
        a.files.insert(k, f);
        self.apps.insert(j, a);
        proof {
            let s0 = old(self).apps@;
            let s1 = self.apps@;
            assert(s1 =~= s0.update(j as int, s1[j as int]));
            assert(s1[j as int].files@ =~= s0[j as int].files@.update(
                k as int,
                s1[j as int].files@[k as int],
            ));
            self.lemma_app_idx(j as int);
            self.apps@[j as int].lemma_file_idx(k as int);
        }
        Ok(())
    }

    /// Read `length` bytes at `offset` from the named file of the selected
    /// application; length zero means "read the entire file".
    pub fn read_data(
        &self,
        file_id: u8,
        offset: u32,
        length: u32,
        enc: Encryption,
    ) -> (r: Result<Vec<u8>, CardError>)
        requires
            self.wf(),
        ensures
            self.selected == PICC_APPLICATION ==> r == Err::<Vec<u8>, CardError>(
                CardError::PermissionDenied,
            ),
            self.selected != PICC_APPLICATION && !self.app_at(self.selected).has_file(file_id)
                ==> r == Err::<Vec<u8>, CardError>(CardError::FileNotFound),
            ({
                let f = self.app_at(self.selected).file_at(file_id);
                self.selected != PICC_APPLICATION && self.app_at(self.selected).has_file(file_id)
                    && !self.read_allowed(f, enc) ==> ((enc is Plain ==> r == Err::<Vec<u8>,
                    CardError>(CardError::PermissionDenied)) && (enc is Encrypted ==> r == Err::<
                    Vec<u8>,
                    CardError,
                >(CardError::AuthFailed)))
            }),
            ({
                let f = self.app_at(self.selected).file_at(file_id);
                self.selected != PICC_APPLICATION && self.app_at(self.selected).has_file(file_id)
                    && self.read_allowed(f, enc) && !(offset <= f.size && length <= f.size
                    - offset) ==> r == Err::<Vec<u8>, CardError>(CardError::OutOfBounds)
            }),
            ({
                let f = self.app_at(self.selected).file_at(file_id);
                let n = if length == 0 {
                    f.size - offset
                } else {
                    length as int
                };
                self.selected != PICC_APPLICATION && self.app_at(self.selected).has_file(file_id)
                    && self.read_allowed(f, enc) && offset <= f.size && length <= f.size - offset
                    ==> (r matches Ok(d) && d@ == f.data@.subrange(offset as int, offset + n))
            }),
    {
        if self.selected == PICC_APPLICATION {
            return Err(CardError::PermissionDenied);
        }
        let j = match self.find_app(self.selected) {
            Some(j) => j,
            None => {
                assert(false);
                return Err(CardError::PermissionDenied);
            },
        };
        proof {
            self.lemma_app_idx(j as int);
        }
        let a = &self.apps[j];
        let k = match a.find_file(file_id) {
            Some(k) => k,
            None => {
                return Err(CardError::FileNotFound);
            },
        };
        proof {
            a.lemma_file_idx(k as int);
        }
        let f = &a.files[k];
        let allowed = match &enc {
            Encryption::Plain => f.comm == FileSettingsCommunication::Plain && f.rights.read
                == FileSettingsAccessRightsKey::Free,
            Encryption::Encrypted(sk) => match &self.session {
                Some(s) => bytes_eq(s, sk),
                None => false,
            },
        };
        if !allowed {
            return match enc {
                Encryption::Plain => Err(CardError::PermissionDenied),
                Encryption::Encrypted(_) => Err(CardError::AuthFailed),
            };
        }
        if !(offset <= f.size && length <= f.size - offset) {
            return Err(CardError::OutOfBounds);
        }
        let n: usize = if length == 0 {
            (f.size - offset) as usize
        } else {
            length as usize
        };
        let off = offset as usize;
        let mut d: Vec<u8> = Vec::new();
        let mut i: usize = 0;
        while i < n
            invariant
                i <= n,
                off == offset,
                off + n <= f.data@.len(),
                off + n <= u32::MAX,
                d@.len() == i,
                forall|x: int| 0 <= x < i ==> d@[x] == f.data@[off + x],
            decreases n - i,
        {
            d.push(f.data[off + i]);
            i += 1;
        }
        proof {
            assert(d@ =~= f.data@.subrange(offset as int, offset + n));
        }
        Ok(d)
    }

    /// Ids of the applications on the card, in directory order.
    pub fn get_application_ids(&self) -> (r: Result<Vec<u32>, CardError>)
        ensures
            r matches Ok(ids) && ids@.len() == self.apps@.len() && forall|i: int|
                0 <= i < ids@.len() ==> ids@[i] == self.apps@[i].id,
    {
        let mut ids: Vec<u32> = Vec::new();
        let mut i: usize = 0;
        while i < self.apps.len()
            invariant
                i <= self.apps@.len(),
                ids@.len() == i,
                forall|j: int| 0 <= j < i ==> ids@[j] == self.apps@[j].id,
            decreases self.apps@.len() - i,
        {
            ids.push(self.apps[i].id);
            i += 1;
        }
        Ok(ids)
    }
}

} // verus!
