//! The storage resolver and manager: it owns the cached development
//! container file, resolves each type's storage location from its mode, and
//! tracks per-type auto-save enablement and modes.

use vstd::prelude::*;
use crate::value::{StoreModel, fold_pairs, distinct_keys, lemma_fold_pairs_not_in,
    lemma_fold_pairs_get, lemma_fold_pairs_push, lemma_fold_pairs_remove};
use crate::file::{PersistFile, FileModel, file_repr, ENGINE_VERSION};
use crate::codec::{Codec, parsed_by, codec_of_path, ron_text_ok};
use crate::errors::{PersistError, PersistResult};
use crate::mode::PersistMode;
use crate::text::{str_eq, to_lower, lower_seq};
use vstd::string::{StringExecFns, StrSliceExecFns};

verus! {

/// The platform's per-application directories, as plain path texts.
#[derive(Debug, Clone)]
pub struct PlatformDirs {
    pub config_dir: String,
    pub data_dir: String,
}

/// Relies on `directories::ProjectDirs::from`: the platform's configuration
/// and data directories for an organization and application. The result
/// depends on the machine and environment; nothing is promised of it.
#[verifier::external_body]
pub fn platform_dirs(organization: &str, app_name: &str) -> (r: Option<PlatformDirs>) {
    directories::ProjectDirs::from("", organization, app_name).map(
        |d| PlatformDirs {
            config_dir: d.config_dir().to_string_lossy().into_owned(),
            data_dir: d.data_dir().to_string_lossy().into_owned(),
        },
    )
}

/// Every space replaced by an underscore.
pub open spec fn underscored(s: Seq<char>) -> Seq<char> {
    s.map_values(|c: char| if c == ' ' { '_' } else { c })
}

/// The development cache file's name for an application: the lowercased
/// name, spaces as underscores, with the development suffix.
pub open spec fn dev_name_of(app: Seq<char>) -> Seq<char> {
    underscored(lower_seq(app)) + "_dev.ron"@
}

/// The dedicated file name for a dynamically stored type.
pub open spec fn dynamic_file_of(name: Seq<char>) -> Seq<char> {
    lower_seq(name) + ".ron"@
}

/// The dedicated file name for a securely stored type.
pub open spec fn secure_file_of(name: Seq<char>) -> Seq<char> {
    lower_seq(name) + ".dat"@
}

/// A directory and a file name as one path text.
pub open spec fn join_path(dir: Seq<char>, file: Seq<char>) -> Seq<char> {
    dir + "/"@ + file
}

/// Replaces every space with an underscore.
#[verifier::loop_isolation(false)]
pub fn replace_spaces(s: &str) -> (r: String)
    ensures
        r@ == underscored(s@),
{
    let n = s.unicode_len();
    let mut r = String::new();
    let mut i: usize = 0;
    while i < n
        invariant
            i <= n,
            r@ == underscored(s@.subrange(0, i as int)),
        decreases n - i,
    {
        let c = s.get_char(i);
        if c == ' ' {
            r.append("_");
            proof {
                reveal_strlit("_");
            }
        } else {
            let piece = s.substring_char(i, i + 1);
            r.append(piece);
        }
        i = i + 1;
        proof {
            assert(underscored(s@.subrange(0, i as int)) =~= underscored(
                s@.subrange(0, i - 1),
            ).push(if s@[i - 1] == ' ' {
                '_'
            } else {
                s@[i - 1]
            }));
            assert(r@ =~= underscored(s@.subrange(0, i as int)));
        }
    }
    proof {
        assert(s@.subrange(0, n as int) =~= s@);
    }
    r
}

/// Computes the development cache file's name for an application.
pub fn dev_file_name(app_name: &str) -> (r: String)
    ensures
        r@ == dev_name_of(app_name@),
{
    let lowered = to_lower(app_name);
    let replaced = replace_spaces(lowered.as_str());
    replaced.concat("_dev.ron")
}

/// The viewed name/flag pairs of the auto-save table.
pub open spec fn flag_models(s: Seq<(String, bool)>) -> Seq<(Seq<char>, bool)> {
    Seq::new(s.len(), |i: int| (s[i].0@, s[i].1))
}

/// The viewed name/mode pairs of the mode table.
pub open spec fn mode_models(s: Seq<(String, PersistMode)>) -> Seq<(Seq<char>, PersistMode)> {
    Seq::new(s.len(), |i: int| (s[i].0@, s[i].1))
}

/// The mathematical content of a manager.
#[verifier::ext_equal]
pub struct ManagerModel {
    pub dev_file: Seq<char>,
    pub app_name: Seq<char>,
    pub organization: Seq<char>,
    pub file: FileModel,
    pub auto_save: bool,
    pub auto_save_types: Map<Seq<char>, bool>,
    pub modes: Map<Seq<char>, PersistMode>,
    pub production: bool,
    pub secret: Option<Seq<char>>,
}

/// Manages persistence: the cached development container file, the
/// per-type auto-save flags, and the per-type storage modes.
#[derive(Debug)]
pub struct PersistManager {
    /// The development cache file's path.
    pub dev_file: String,
    pub app_name: String,
    pub organization: String,
    /// The cached development container file.
    pub persist_file: PersistFile,
    /// Whether auto-save is enabled globally.
    pub auto_save: bool,
    /// Per-type auto-save overrides.
    pub auto_save_types: Vec<(String, bool)>,
    /// Per-type storage modes.
    pub persist_modes: Vec<(String, PersistMode)>,
    /// Whether this is a production configuration; a development one keeps
    /// everything in the shared development file.
    pub production: bool,
    /// Key material for obfuscating securely stored files.
    pub secret: Option<String>,
}

impl View for PersistManager {
    type V = ManagerModel;

    open spec fn view(&self) -> ManagerModel {
        ManagerModel {
            dev_file: self.dev_file@,
            app_name: self.app_name@,
            organization: self.organization@,
            file: self.persist_file@,
            auto_save: self.auto_save,
            auto_save_types: fold_pairs(flag_models(self.auto_save_types@)),
            modes: fold_pairs(mode_models(self.persist_modes@)),
            production: self.production,
            secret: match self.secret {
                Some(s) => Some(s@),
                None => None,
            },
        }
    }
}

impl PersistManager {
    /// Well-formedness: the cached file is well-formed and the two tables
    /// hold each type name once.
    pub open spec fn wf(self) -> bool {
        &&& self.persist_file.wf()
        &&& distinct_keys(flag_models(self.auto_save_types@))
        &&& distinct_keys(mode_models(self.persist_modes@))
    }

    /// Whether auto-save applies to a type: the global flag, and the
    /// type's override, which defaults to enabled.
    pub open spec fn auto_save_for(self, name: Seq<char>) -> bool {
        self@.auto_save && (if self@.auto_save_types.dom().contains(name) {
            self@.auto_save_types[name]
        } else {
            true
        })
    }

    /// The mode recorded for a type, `Dev` if never set.
    pub open spec fn mode_for(self, name: Seq<char>) -> PersistMode {
        if self@.modes.dom().contains(name) {
            self@.modes[name]
        } else {
            PersistMode::Dev
        }
    }

    /// Creates a manager for an organization and application, with an empty
    /// development cache. Loading the cache file's content, where one
    /// exists, is a separate step.
    pub fn new(organization: &str, app_name: &str) -> (r: Self)
        ensures
            r@.dev_file == dev_name_of(app_name@),
            r@.app_name == app_name@,
            r@.organization == organization@,
            r@.file.data == Map::<Seq<char>, StoreModel>::empty(),
            r@.file.version == ENGINE_VERSION@,
            r@.auto_save == true,
            r@.auto_save_types == Map::<Seq<char>, bool>::empty(),
            r@.modes == Map::<Seq<char>, PersistMode>::empty(),
            r@.production == false,
            r@.secret is None,
            r.wf(),
    {
        let r = PersistManager {
            dev_file: dev_file_name(app_name),
            app_name: app_name.to_owned(),
            organization: organization.to_owned(),
            persist_file: PersistFile::new(),
            auto_save: true,
            auto_save_types: Vec::new(),
            persist_modes: Vec::new(),
            production: false,
            secret: None,
        };
        proof {
            assert(flag_models(r.auto_save_types@) =~= Seq::<(Seq<char>, bool)>::empty());
            assert(mode_models(r.persist_modes@) =~= Seq::<(Seq<char>, PersistMode)>::empty());
        }
        r
    }

    /// Sets the key material used to obfuscate securely stored files.
    pub fn with_secret(self, secret: &str) -> (r: Self)
        ensures
            r@ == (ManagerModel { secret: Some(secret@), ..self@ }),
            r.wf() == self.wf(),
    {
        PersistManager { secret: Some(secret.to_owned()), ..self }
    }

    /// Encodes the cached development container file for its path,
    /// refreshing its timestamp. Writing the content to the path is the
    /// caller's step.
    pub fn save(&mut self) -> (r: PersistResult<SavePlan>)
        requires
            old(self).wf(),
        ensures
            final(self)@ == (ManagerModel {
                file: FileModel {
                    last_saved: final(self)@.file.last_saved,
                    ..old(self)@.file
                },
                ..old(self)@
            }),
            final(self).wf(),
            final(self)@.file.last_saved.len() > 0,
            codec_of_path(old(self)@.dev_file) == Codec::Json ==> r is Ok,
            codec_of_path(old(self)@.dev_file) == Codec::Ron ==> (r is Ok <==> ron_text_ok(
                file_repr(final(self)@.file),
            )),
            r matches Ok(plan) ==> plan.path@ == old(self)@.dev_file && (parsed_by(
                codec_of_path(plan.path@),
                plan.content@,
            ) matches Some(pm) ==> pm == file_repr(final(self)@.file)),
            r matches Err(e) ==> e is SerializationError,
    {
        let content = self.persist_file.save_to_file(self.dev_file.as_str());
        match content {
            Ok(content) => Ok(SavePlan { path: self.dev_file.clone(), content }),
            Err(e) => Err(e),
        }
    }

    /// Replaces the cached development container file with what its path's
    /// content decodes to; `content` is the file's text, or nothing where
    /// the file is absent, which reads as an empty container file.
    pub fn load(&mut self, content: Option<&str>) -> (r: PersistResult<()>)
        requires
            old(self).wf(),
        ensures
            final(self)@ == (ManagerModel { file: final(self)@.file, ..old(self)@ }),
            final(self).wf(),
            content is None ==> (r is Ok && final(self)@.file.data == Map::<
                Seq<char>,
                StoreModel,
            >::empty()),
            content matches Some(s) ==> match parsed_by(codec_of_path(old(self)@.dev_file), s@) {
                Option::Some(pm) => match crate::file::file_interp(pm) {
                    Option::Some(fm) => r is Ok && final(self)@.file == fm,
                    Option::None => r is Err && final(self)@.file == old(self)@.file,
                },
                Option::None => r is Err && final(self)@.file == old(self)@.file,
            },
    {
        match PersistFile::load_from_file(self.dev_file.as_str(), content) {
            Ok(f) => {
                self.persist_file = f;
                Ok(())
            },
            Err(e) => Err(e),
        }
    }

    /// A reference to the cached development container file.
    pub fn get_persist_file(&self) -> (r: &PersistFile)
        ensures
            r@ == self@.file,
            r.wf() == self.persist_file.wf(),
    {
        &self.persist_file
    }

    /// A mutable reference to the cached development container file.
    pub fn get_persist_file_mut(&mut self) -> (r: &mut PersistFile)
        ensures
            *r == old(self).persist_file,
            *final(self) == (PersistManager { persist_file: *final(r), ..*old(self) }),
    {
        &mut self.persist_file
    }

    /// Whether auto-save applies to a type.
    pub fn is_auto_save_enabled(&self, name: &str) -> (r: bool)
        requires
            self.wf(),
        ensures
            r == self.auto_save_for(name@),
    {
        if !self.auto_save {
            return false;
        }
        let n = self.auto_save_types.len();
        let mut i: usize = 0;
        while i < n
            invariant
                i <= n,
                n == self.auto_save_types@.len(),
                forall|t: int| 0 <= t < i ==> self.auto_save_types@[t].0@ != name@,
                self.wf(),
                self.auto_save,
            decreases n - i,
        {
            if str_eq(self.auto_save_types[i].0.as_str(), name) {
                proof {
                    lemma_fold_pairs_get(flag_models(self.auto_save_types@), i as int);
                }
                return self.auto_save_types[i].1;
            }
            i = i + 1;
        }
        proof {
            lemma_fold_pairs_not_in(flag_models(self.auto_save_types@), name@);
        }
        true
    }

    /// Sets whether auto-save applies to a type.
    pub fn set_type_auto_save(&mut self, name: String, enabled: bool)
        requires
            old(self).wf(),
        ensures
            final(self)@ == (ManagerModel {
                auto_save_types: old(self)@.auto_save_types.insert(name@, enabled),
                ..old(self)@
            }),
            final(self).wf(),
    {
        let ghost before = self.auto_save_types@;
        let found = find_flag(&self.auto_save_types, name.as_str());
        match found {
            Some(j) => {
                self.auto_save_types.remove(j);
                proof {
                    assert(flag_models(self.auto_save_types@) =~= flag_models(before).remove(
                        j as int,
                    ));
                    lemma_fold_pairs_remove(flag_models(before), j as int);
                }
            },
            None => {
                proof {
                    lemma_fold_pairs_not_in(flag_models(before), name@);
                    assert(fold_pairs(flag_models(before)).remove(name@) =~= fold_pairs(
                        flag_models(before),
                    ));
                }
            },
        }
        let ghost mid = self.auto_save_types@;
        self.auto_save_types.push((name, enabled));
        proof {
            assert(flag_models(self.auto_save_types@) =~= flag_models(mid).push(
                (self.auto_save_types@.last().0@, enabled),
            ));
            lemma_fold_pairs_push(flag_models(mid), self.auto_save_types@.last().0@, enabled);
            assert(old(self)@.auto_save_types.remove(self.auto_save_types@.last().0@).insert(
                self.auto_save_types@.last().0@,
                enabled,
            ) =~= old(self)@.auto_save_types.insert(self.auto_save_types@.last().0@, enabled));
            assert(final(self)@ =~= (ManagerModel {
                auto_save_types: old(self)@.auto_save_types.insert(
                    self.auto_save_types@.last().0@,
                    enabled,
                ),
                ..old(self)@
            }));
        }
    }

    /// Sets the storage mode for a type.
    pub fn set_type_mode(&mut self, name: String, mode: PersistMode)
        requires
            old(self).wf(),
        ensures
            final(self)@ == (ManagerModel {
                modes: old(self)@.modes.insert(name@, mode),
                ..old(self)@
            }),
            final(self).wf(),
    {
        let ghost before = self.persist_modes@;
        let found = find_mode_entry(&self.persist_modes, name.as_str());
        match found {
            Some(j) => {
                self.persist_modes.remove(j);
                proof {
                    assert(mode_models(self.persist_modes@) =~= mode_models(before).remove(
                        j as int,
                    ));
                    lemma_fold_pairs_remove(mode_models(before), j as int);
                }
            },
            None => {
                proof {
                    lemma_fold_pairs_not_in(mode_models(before), name@);
                    assert(fold_pairs(mode_models(before)).remove(name@) =~= fold_pairs(
                        mode_models(before),
                    ));
                }
            },
        }
        let ghost mid = self.persist_modes@;
        self.persist_modes.push((name, mode));
        proof {
            assert(mode_models(self.persist_modes@) =~= mode_models(mid).push(
                (self.persist_modes@.last().0@, mode),
            ));
            lemma_fold_pairs_push(mode_models(mid), self.persist_modes@.last().0@, mode);
            assert(old(self)@.modes.remove(self.persist_modes@.last().0@).insert(
                self.persist_modes@.last().0@,
                mode,
            ) =~= old(self)@.modes.insert(self.persist_modes@.last().0@, mode));
            assert(final(self)@ =~= (ManagerModel {
                modes: old(self)@.modes.insert(self.persist_modes@.last().0@, mode),
                ..old(self)@
            }));
        }
    }

    /// The storage mode recorded for a type, `Dev` if never set.
    pub fn get_type_mode(&self, name: &str) -> (r: PersistMode)
        requires
            self.wf(),
        ensures
            r == self.mode_for(name@),
    {
        let n = self.persist_modes.len();
        let mut i: usize = 0;
        while i < n
            invariant
                i <= n,
                n == self.persist_modes@.len(),
                forall|t: int| 0 <= t < i ==> self.persist_modes@[t].0@ != name@,
                self.wf(),
            decreases n - i,
        {
            if str_eq(self.persist_modes[i].0.as_str(), name) {
                proof {
                    lemma_fold_pairs_get(mode_models(self.persist_modes@), i as int);
                }
                return self.persist_modes[i].1;
            }
            i = i + 1;
        }
        proof {
            lemma_fold_pairs_not_in(mode_models(self.persist_modes@), name@);
        }
        PersistMode::Dev
    }

    /// Resolves the storage path for a type, given the platform directories
    /// where they are available. A development configuration keeps every
    /// type in the shared development file; `Embed` never touches disk, so
    /// its path is empty.
    pub fn resource_path_with(
        &self,
        dirs: Option<&PlatformDirs>,
        name: &str,
        mode: PersistMode,
    ) -> (r: String)
        ensures
            !self@.production ==> r@ == self@.dev_file,
            self@.production && mode == PersistMode::Dev ==> r@ == dev_name_of(self@.app_name),
            self@.production && mode == PersistMode::Embed ==> r@ == Seq::<char>::empty(),
            self@.production && mode == PersistMode::Dynamic ==> r@ == (match dirs {
                Option::Some(d) => join_path(d.config_dir@, dynamic_file_of(name@)),
                Option::None => dynamic_file_of(name@),
            }),
            self@.production && mode == PersistMode::Secure ==> r@ == (match dirs {
                Option::Some(d) => join_path(d.data_dir@, secure_file_of(name@)),
                Option::None => secure_file_of(name@),
            }),
    {
        if !self.production {
            return self.dev_file.clone();
        }
        match mode {
            PersistMode::Dev => dev_file_name(self.app_name.as_str()),
            PersistMode::Embed => String::new(),
            PersistMode::Dynamic => {
                let file = to_lower(name).concat(".ron");
                match dirs {
                    Some(d) => d.config_dir.clone().concat("/").concat(file.as_str()),
                    None => file,
                }
            },
            PersistMode::Secure => {
                let file = to_lower(name).concat(".dat");
                match dirs {
                    Some(d) => d.data_dir.clone().concat("/").concat(file.as_str()),
                    None => file,
                }
            },
        }
    }

    /// Resolves the storage path for a type, asking the platform for its
    /// directories. Where the platform offers none, a dynamically or
    /// securely stored type falls back to a file in the current directory.
    pub fn get_resource_path(&self, name: &str, mode: PersistMode) -> (r: String)
        ensures
            !self@.production ==> r@ == self@.dev_file,
            self@.production && mode == PersistMode::Dev ==> r@ == dev_name_of(self@.app_name),
            self@.production && mode == PersistMode::Embed ==> r@ == Seq::<char>::empty(),
            self@.production && mode == PersistMode::Dynamic ==> r@ == dynamic_file_of(name@)
                || (exists|dir: Seq<char>| r@ == #[trigger] join_path(dir, dynamic_file_of(name@))),
            self@.production && mode == PersistMode::Secure ==> r@ == secure_file_of(name@)
                || (exists|dir: Seq<char>| r@ == #[trigger] join_path(dir, secure_file_of(name@))),
    {
        let dirs = platform_dirs(self.organization.as_str(), self.app_name.as_str());
        match dirs {
            Some(d) => self.resource_path_with(Some(&d), name, mode),
            None => self.resource_path_with(None, name, mode),
        }
    }
}


/// The index of a name in the auto-save table, if any.
fn find_flag(v: &Vec<(String, bool)>, name: &str) -> (r: Option<usize>)
    ensures
        r matches Some(i) ==> i < v@.len() && v@[i as int].0@ == name@,
        r is None ==> forall|t: int| 0 <= t < v@.len() ==> v@[t].0@ != name@,
{
    let n = v.len();
    let mut i: usize = 0;
    while i < n
        invariant
            i <= n,
            n == v@.len(),
            forall|t: int| 0 <= t < i ==> v@[t].0@ != name@,
        decreases n - i,
    {
        if str_eq(v[i].0.as_str(), name) {
            return Some(i);
        }
        i = i + 1;
    }
    None
}

/// The index of a name in the mode table, if any.
fn find_mode_entry(v: &Vec<(String, PersistMode)>, name: &str) -> (r: Option<usize>)
    ensures
        r matches Some(i) ==> i < v@.len() && v@[i as int].0@ == name@,
        r is None ==> forall|t: int| 0 <= t < v@.len() ==> v@[t].0@ != name@,
{
    let n = v.len();
    let mut i: usize = 0;
    while i < n
        invariant
            i <= n,
            n == v@.len(),
            forall|t: int| 0 <= t < i ==> v@[t].0@ != name@,
        decreases n - i,
    {
        if str_eq(v[i].0.as_str(), name) {
            return Some(i);
        }
        i = i + 1;
    }
    None
}


/// The last characters of a concatenation are its second part.
proof fn lemma_concat_suffix(a: Seq<char>, b: Seq<char>)
    ensures
        (a + b).subrange(a.len() as int, (a + b).len() as int) == b,
{
    assert((a + b).subrange(a.len() as int, (a + b).len() as int) =~= b);
}

/// A dynamically stored type's file name selects the RON codec, under any
/// directory.
pub proof fn lemma_dynamic_path_codec(p: Seq<char>, name: Seq<char>)
    requires
        p == dynamic_file_of(name) || (exists|dir: Seq<char>|
            p == #[trigger] join_path(dir, dynamic_file_of(name))),
    ensures
        codec_of_path(p) == Codec::Ron,
{
    reveal_strlit(".ron");
    let f = dynamic_file_of(name);
    if p == f {
        lemma_concat_suffix(lower_seq(name), ".ron"@);
        assert(p.subrange(p.len() - 4, p.len() as int) == ".ron"@);
    } else {
        let dir = choose|dir: Seq<char>| p == join_path(dir, dynamic_file_of(name));
        assert(p =~= (dir + "/"@ + lower_seq(name)) + ".ron"@);
        lemma_concat_suffix(dir + "/"@ + lower_seq(name), ".ron"@);
        assert(p.subrange(p.len() - 4, p.len() as int) == ".ron"@);
    }
}

/// A securely stored type's file name selects the JSON codec, under any
/// directory: its extension is not the RON one.
pub proof fn lemma_secure_path_codec(p: Seq<char>, name: Seq<char>)
    requires
        p == secure_file_of(name) || (exists|dir: Seq<char>|
            p == #[trigger] join_path(dir, secure_file_of(name))),
    ensures
        codec_of_path(p) == Codec::Json,
{
    reveal_strlit(".dat");
    reveal_strlit(".ron");
    let f = secure_file_of(name);
    if p == f {
        lemma_concat_suffix(lower_seq(name), ".dat"@);
        assert(p.subrange(p.len() - 4, p.len() as int) == ".dat"@);
    } else {
        let dir = choose|dir: Seq<char>| p == join_path(dir, secure_file_of(name));
        assert(p =~= (dir + "/"@ + lower_seq(name)) + ".dat"@);
        lemma_concat_suffix(dir + "/"@ + lower_seq(name), ".dat"@);
        assert(p.subrange(p.len() - 4, p.len() as int) == ".dat"@);
    }
    assert(".dat"@[1] != ".ron"@[1]);
    assert(!crate::codec::is_ron_path(p));
}

/// One pending write: the path to write and the text to write there.
#[derive(Debug, Clone)]
pub struct SavePlan {
    pub path: String,
    pub content: String,
}

} // verus!
