//! The registration directory and the plugin front: record types submit one
//! registration entry each, and building the engine consumes every entry
//! exactly once, recording each type's auto-save default and storage mode.

use vstd::prelude::*;
use crate::value::{fold_pairs, StoreModel};
use crate::codec::{parsed_by, codec_of_path};
use crate::file::file_interp;
use crate::manager::{PersistManager, ManagerModel, dev_name_of};
use crate::mode::{PersistMode, mode_of_name, mode_from_name};

verus! {

/// The mathematical content of one registration entry.
#[verifier::ext_equal]
pub struct RegistrationModel {
    pub name: Seq<char>,
    pub mode_name: Seq<char>,
    pub auto_save: bool,
}

/// One record type's self-submitted registration: its storage name, the
/// name of its storage mode, and its auto-save default. Host code submits
/// one per type before the engine is built; the wiring that installs the
/// type's hooks stays with the host.
#[derive(Debug, Clone)]
pub struct PersistRegistration {
    pub name: String,
    pub persist_mode: String,
    pub auto_save: bool,
}

impl View for PersistRegistration {
    type V = RegistrationModel;

    open spec fn view(&self) -> RegistrationModel {
        RegistrationModel {
            name: self.name@,
            mode_name: self.persist_mode@,
            auto_save: self.auto_save,
        }
    }
}

impl PersistRegistration {
    /// Creates a registration entry.
    pub fn new(name: &str, persist_mode: &str, auto_save: bool) -> (r: Self)
        ensures
            r@ == (RegistrationModel {
                name: name@,
                mode_name: persist_mode@,
                auto_save: auto_save,
            }),
    {
        PersistRegistration {
            name: name.to_owned(),
            persist_mode: persist_mode.to_owned(),
            auto_save: auto_save,
        }
    }
}

/// The process-wide, append-only list of registration entries.
#[derive(Debug)]
pub struct PersistRegistry {
    pub entries: Vec<PersistRegistration>,
}

impl View for PersistRegistry {
    type V = Seq<RegistrationModel>;

    open spec fn view(&self) -> Seq<RegistrationModel> {
        Seq::new(self.entries@.len(), |i: int| self.entries@[i]@)
    }
}

impl PersistRegistry {
    /// An empty directory.
    pub fn new() -> (r: Self)
        ensures
            r@ == Seq::<RegistrationModel>::empty(),
    {
        let r = PersistRegistry { entries: Vec::new() };
        proof {
            assert(r@ =~= Seq::<RegistrationModel>::empty());
        }
        r
    }

    /// Appends one entry; nothing is ever removed.
    pub fn submit(&mut self, entry: PersistRegistration)
        ensures
            final(self)@ == old(self)@.push(entry@),
    {
        self.entries.push(entry);
        proof {
            assert(final(self)@ =~= old(self)@.push(self.entries@.last()@));
        }
    }
}

/// The auto-save defaults a registration sequence records, a later entry
/// overriding an earlier one of the same name.
pub open spec fn registry_flags(entries: Seq<RegistrationModel>) -> Map<Seq<char>, bool> {
    fold_pairs(Seq::new(entries.len(), |i: int| (entries[i].name, entries[i].auto_save)))
}

/// The storage modes a registration sequence records.
pub open spec fn registry_modes(entries: Seq<RegistrationModel>) -> Map<Seq<char>, PersistMode> {
    fold_pairs(Seq::new(entries.len(), |i: int| (entries[i].name, mode_of_name(entries[i].mode_name))))
}

/// Configuration for building the engine: the organization and application
/// identifiers and the global auto-save flag.
#[derive(Debug)]
pub struct PersistPlugin {
    pub organization: String,
    pub app_name: String,
    pub auto_save: bool,
}

impl PersistPlugin {
    /// Creates a plugin configuration for an organization and application.
    pub fn new(organization: &str, app_name: &str) -> (r: Self)
        ensures
            r.organization@ == organization@,
            r.app_name@ == app_name@,
            r.auto_save == true,
    {
        PersistPlugin {
            organization: organization.to_owned(),
            app_name: app_name.to_owned(),
            auto_save: true,
        }
    }

    /// Sets whether auto-save is enabled globally.
    pub fn with_auto_save(self, enabled: bool) -> (r: Self)
        ensures
            r.organization@ == self.organization@,
            r.app_name@ == self.app_name@,
            r.auto_save == enabled,
    {
        PersistPlugin { auto_save: enabled, ..self }
    }
}

impl Default for PersistPlugin {
    /// The default configuration: stand-in identifiers, auto-save on.
    fn default() -> (r: Self)
        ensures
            r.organization@ == "DefaultOrg"@,
            r.app_name@ == "DefaultApp"@,
            r.auto_save == true,
    {
        PersistPlugin::new("DefaultOrg", "DefaultApp")
    }
}

/// Builds a manager from a plugin configuration and the registration
/// directory: every submitted entry is consumed exactly once, recording its
/// auto-save default and storage mode. `dev_content` is the development
/// cache file's text, where one exists; a file that cannot be read or
/// decoded means starting empty, never a failure.
#[verifier::loop_isolation(false)]
pub fn build_manager(
    plugin: &PersistPlugin,
    registry: &PersistRegistry,
    dev_content: Option<&str>,
) -> (m: PersistManager)
    ensures
        m@.organization == plugin.organization@,
        m@.app_name == plugin.app_name@,
        m@.dev_file == dev_name_of(plugin.app_name@),
        m@.auto_save == plugin.auto_save,
        m@.production == false,
        m@.secret is None,
        m@.auto_save_types == registry_flags(registry@),
        m@.modes == registry_modes(registry@),
        dev_content is None ==> m@.file.data == Map::<Seq<char>, StoreModel>::empty(),
        dev_content matches Some(s) ==> match parsed_by(
            codec_of_path(dev_name_of(plugin.app_name@)),
            s@,
        ) {
            Option::Some(pm) => match file_interp(pm) {
                Option::Some(fm) => m@.file == fm,
                Option::None => m@.file.data == Map::<Seq<char>, StoreModel>::empty(),
            },
            Option::None => m@.file.data == Map::<Seq<char>, StoreModel>::empty(),
        },
        m.wf(),
{
    let mut m = PersistManager::new(plugin.organization.as_str(), plugin.app_name.as_str());
    m.auto_save = plugin.auto_save;
    // a cache file's text that does not decode is dropped: the engine
    // starts with an empty cache, never a failure
    match m.load(dev_content) {
        Ok(()) => (),
        Err(_) => (),
    }
    let ghost loaded_file = m@.file;
    let n = registry.entries.len();
    let mut i: usize = 0;
    while i < n
        invariant
            i <= n,
            m.wf(),
            m@.organization == plugin.organization@,
            m@.app_name == plugin.app_name@,
            m@.dev_file == dev_name_of(plugin.app_name@),
            m@.auto_save == plugin.auto_save,
            m@.production == false,
            m@.secret is None,
            m@.file == loaded_file,
            m@.auto_save_types == registry_flags(registry@.subrange(0, i as int)),
            m@.modes == registry_modes(registry@.subrange(0, i as int)),
        decreases n - i,
    {
        let entry = &registry.entries[i];
        let mode = mode_from_name(entry.persist_mode.as_str());
        m.set_type_auto_save(entry.name.clone(), entry.auto_save);
        m.set_type_mode(entry.name.clone(), mode);
        proof {
            let prefix = registry@.subrange(0, i as int);
            let next = registry@.subrange(0, i + 1);
            let flag_pairs = Seq::new(prefix.len(), |t: int| (prefix[t].name, prefix[t].auto_save));
            let mode_pairs = Seq::new(
                prefix.len(),
                |t: int| (prefix[t].name, mode_of_name(prefix[t].mode_name)),
            );
            assert(Seq::new(next.len(), |t: int| (next[t].name, next[t].auto_save)) =~= flag_pairs
                .push((registry@[i as int].name, registry@[i as int].auto_save)));
            assert(Seq::new(next.len(), |t: int| (next[t].name, mode_of_name(next[t].mode_name)))
                =~= mode_pairs.push(
                (registry@[i as int].name, mode_of_name(registry@[i as int].mode_name)),
            ));
            crate::value::lemma_fold_pairs_push(
                flag_pairs,
                registry@[i as int].name,
                registry@[i as int].auto_save,
            );
            crate::value::lemma_fold_pairs_push(
                mode_pairs,
                registry@[i as int].name,
                mode_of_name(registry@[i as int].mode_name),
            );
        }
        i = i + 1;
    }
    proof {
        assert(registry@.subrange(0, n as int) =~= registry@);
    }
    m
}

} // verus!
