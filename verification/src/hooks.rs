//! The engine's two hooks. The persist hook runs once per host tick per
//! registered type and decides whether, where, and as what text the type's
//! state is written; the load hook runs once before the first tick and
//! picks the store the type's instance is merged from. Neither touches the
//! disk: each returns what the host should write or gets handed what the
//! host read.

use vstd::prelude::*;
use crate::value::StoreModel;
use crate::store::PersistData;
use crate::file::{PersistFile, FileModel, file_repr, file_interp, is_meta, lemma_file_round_trip,
    ENGINE_VERSION};
use crate::manager::{PersistManager, ManagerModel, SavePlan, dynamic_file_of, secure_file_of,
    join_path, lemma_dynamic_path_codec, lemma_secure_path_codec};
use crate::mode::PersistMode;
use crate::codec::{Codec, parsed_by, codec_of_path, decode_datum, ron_text_ok};
use crate::secure::{obfuscated, deobfuscated, obfuscate, deobfuscate};

verus! {

/// Whether a text, under a codec, encodes a container file holding exactly
/// one store, under the given name: so wherever the codec's parser accepts
/// the text at all.
pub open spec fn single_entry_encoding(
    c: Codec,
    text: Seq<char>,
    name: Seq<char>,
    sm: StoreModel,
) -> bool {
    parsed_by(c, text) matches Some(pm) ==> (file_interp(pm) matches Some(fm) && fm.data
        == Map::<Seq<char>, StoreModel>::empty().insert(name, sm))
}

/// Whether a pending write carries a fresh single-type container for a
/// dedicated location: obfuscated under the manager's secret for a securely
/// stored type, plain text otherwise.
pub open spec fn dedicated_plan_ok(
    path: Seq<char>,
    content: Seq<char>,
    m: ManagerModel,
    name: Seq<char>,
    mode: PersistMode,
    sm: StoreModel,
) -> bool {
    if mode == PersistMode::Secure && m.secret is Some {
        exists|inner: Seq<char>|
            #![auto]
            content == obfuscated(inner, m.secret.unwrap()) && single_entry_encoding(
                codec_of_path(path),
                inner,
                name,
                sm,
            )
    } else {
        single_entry_encoding(codec_of_path(path), content, name, sm)
    }
}

/// The path a dedicated write aims at: the type's own file name, bare or
/// under a platform directory.
pub open spec fn plan_path_ok(path: Seq<char>, name: Seq<char>, mode: PersistMode) -> bool {
    if mode == PersistMode::Dynamic {
        path == dynamic_file_of(name) || (exists|dir: Seq<char>|
            path == #[trigger] join_path(dir, dynamic_file_of(name)))
    } else if mode == PersistMode::Secure {
        path == secure_file_of(name) || (exists|dir: Seq<char>|
            path == #[trigger] join_path(dir, secure_file_of(name)))
    } else {
        true
    }
}

/// The store a container file text yields for a name under a codec, if the
/// text decodes and carries one.
pub open spec fn codec_lookup(c: Codec, text: Seq<char>, name: Seq<char>) -> Option<StoreModel> {
    match parsed_by(c, text) {
        Option::Some(pm) => match file_interp(pm) {
            Option::Some(fm) => if fm.data.dom().contains(name) {
                Some(fm.data[name])
            } else {
                None
            },
            Option::None => None,
        },
        Option::None => None,
    }
}

/// The store a dedicated file's text yields: a securely stored file is
/// first read back through the manager's secret, and holds JSON; a
/// dynamically stored file holds RON.
pub open spec fn disk_lookup(
    m: ManagerModel,
    mode: PersistMode,
    text: Seq<char>,
    name: Seq<char>,
) -> Option<StoreModel> {
    if mode == PersistMode::Secure {
        match m.secret {
            Option::Some(sec) => match deobfuscated(text, sec) {
                Option::Some(plain) => codec_lookup(Codec::Json, plain, name),
                Option::None => None,
            },
            Option::None => codec_lookup(Codec::Json, text, name),
        }
    } else {
        codec_lookup(Codec::Ron, text, name)
    }
}

/// The view of an optional text.
pub open spec fn view_opt(o: Option<&str>) -> Option<Seq<char>> {
    match o {
        Option::Some(s) => Some(s@),
        Option::None => None,
    }
}

/// The store the load hook picks: embedded data first for an embedded type
/// in production, then the dedicated file for a dynamically or securely
/// stored type in production, then the cached development container file.
pub open spec fn load_choice(
    m: ManagerModel,
    name: Seq<char>,
    mode: PersistMode,
    embedded: Option<Seq<char>>,
    disk: Option<Seq<char>>,
) -> Option<StoreModel> {
    let dev = if m.file.data.dom().contains(name) {
        Some(m.file.data[name])
    } else {
        None
    };
    if m.production && mode == PersistMode::Embed {
        match embedded {
            Option::Some(e) => match embedded_lookup(e, name) {
                Option::Some(sm) => Some(sm),
                Option::None => dev,
            },
            Option::None => dev,
        }
    } else if m.production && (mode == PersistMode::Dynamic || mode == PersistMode::Secure) {
        match disk {
            Option::Some(t) => match disk_lookup(m, mode, t, name) {
                Option::Some(sm) => Some(sm),
                Option::None => dev,
            },
            Option::None => dev,
        }
    } else {
        dev
    }
}

/// The store embedded data yields, trying each codec in turn: RON first,
/// then JSON.
pub open spec fn embedded_lookup(text: Seq<char>, name: Seq<char>) -> Option<StoreModel> {
    match codec_lookup(Codec::Ron, text, name) {
        Option::Some(sm) => Some(sm),
        Option::None => codec_lookup(Codec::Json, text, name),
    }
}

/// Decodes a container file text under a codec and extracts one store.
fn try_codec_store(c: Codec, text: &str, name: &str) -> (r: Option<PersistData>)
    ensures
        r matches Some(d) ==> codec_lookup(c, text@, name@) == Some(d@) && d.wf(),
        r is None <==> codec_lookup(c, text@, name@) is None,
{
    match decode_datum(c, text) {
        Ok(d) => match crate::file::datum_to_file(d) {
            Ok(f) => f.take_type_data(name),
            Err(_) => None,
        },
        Err(_) => None,
    }
}

/// Reads a dedicated file's text and extracts one store, through the
/// manager's secret for a securely stored type.
fn try_disk_store(manager: &PersistManager, mode: PersistMode, text: &str, name: &str) -> (r:
    Option<PersistData>)
    requires
        manager.wf(),
        mode == PersistMode::Dynamic || mode == PersistMode::Secure,
    ensures
        r matches Some(d) ==> disk_lookup(manager@, mode, text@, name@) == Some(d@) && d.wf(),
        r is None <==> disk_lookup(manager@, mode, text@, name@) is None,
{
    if mode == PersistMode::Secure {
        match &manager.secret {
            Some(sec) => match deobfuscate(text, sec.as_str()) {
                Some(plain) => try_codec_store(Codec::Json, plain.as_str(), name),
                None => None,
            },
            None => try_codec_store(Codec::Json, text, name),
        }
    } else {
        try_codec_store(Codec::Ron, text, name)
    }
}

/// The persist hook: decides whether a changed record is written now, and
/// produces the pending write. An unchanged record is never written; an
/// embedded type is never written back in production; a type whose
/// auto-save is off waits for a manual save. A dynamically or securely
/// stored type in production goes to its own file as a fresh single-type
/// container and never enters the development cache; everything else is
/// merged into the cache, and the whole cache is encoded for its file.
/// An encoding failure is swallowed: no write is produced, the tick goes
/// on.
pub fn persist_system(
    manager: &mut PersistManager,
    name: &str,
    mode: PersistMode,
    changed: bool,
    data: PersistData,
) -> (r: Option<SavePlan>)
    requires
        old(manager).wf(),
        data.wf(),
    ensures
        final(manager).wf(),
        final(manager)@ == (ManagerModel { file: final(manager)@.file, ..old(manager)@ }),
        !changed ==> r is None && final(manager)@ == old(manager)@,
        (changed && old(manager)@.production && mode == PersistMode::Embed)
            ==> r is None && final(manager)@ == old(manager)@,
        (changed && !(old(manager)@.production && mode == PersistMode::Embed)
            && !old(manager).auto_save_for(name@))
            ==> r is None && final(manager)@ == old(manager)@,
        (changed && old(manager)@.production
            && (mode == PersistMode::Dynamic || mode == PersistMode::Secure)
            && old(manager).auto_save_for(name@))
            ==> final(manager)@ == old(manager)@
                && (mode == PersistMode::Secure ==> r is Some)
                && (mode == PersistMode::Dynamic ==> (exists|fm: FileModel|
                    #![auto]
                    fm.data == Map::<Seq<char>, StoreModel>::empty().insert(name@, data@)
                        && fm.version == ENGINE_VERSION@ && (r is Some <==> ron_text_ok(
                        file_repr(fm),
                    ))))
                && (r matches Some(plan) ==> plan_path_ok(plan.path@, name@, mode)
                    && (!is_meta(name@)
                        ==> dedicated_plan_ok(plan.path@, plan.content@, old(manager)@, name@, mode, data@))),
        (changed && old(manager).auto_save_for(name@)
            && !(old(manager)@.production && mode != PersistMode::Dev))
            ==> final(manager)@.file.data == old(manager)@.file.data.insert(name@, data@)
                && final(manager)@.file.version == old(manager)@.file.version
                && (r matches Some(plan) ==> plan.path@ == old(manager)@.dev_file
                    && (parsed_by(codec_of_path(plan.path@), plan.content@) matches Some(pm)
                        ==> pm == file_repr(final(manager)@.file))),
{
    if !changed {
        return None;
    }
    if manager.production && mode == PersistMode::Embed {
        return None;
    }
    if !manager.is_auto_save_enabled(name) {
        return None;
    }
    if manager.production && (mode == PersistMode::Dynamic || mode == PersistMode::Secure) {
        let path = manager.get_resource_path(name, mode);
        proof {
            if mode == PersistMode::Dynamic {
                lemma_dynamic_path_codec(path@, name@);
            } else {
                lemma_secure_path_codec(path@, name@);
            }
        }
        let mut fresh = PersistFile::new();
        fresh.set_type_data(name.to_owned(), data);
        match fresh.save_to_file(path.as_str()) {
            Ok(content) => {
                proof {
                    assert(fresh@.data =~= Map::<Seq<char>, StoreModel>::empty().insert(
                        name@,
                        data@,
                    ));
                    if mode == PersistMode::Dynamic {
                        assert(ron_text_ok(file_repr(fresh@)));
                    }
                    if !is_meta(name@) {
                        lemma_file_round_trip(fresh@);
                        assert(single_entry_encoding(codec_of_path(path@), content@, name@, data@));
                    }
                }
                if mode == PersistMode::Secure {
                    match &manager.secret {
                        Some(sec) => {
                            let masked = obfuscate(content.as_str(), sec.as_str());
                            proof {
                                if !is_meta(name@) {
                                    assert(masked@ == obfuscated(
                                        content@,
                                        old(manager)@.secret.unwrap(),
                                    ));
                                    assert(dedicated_plan_ok(
                                        path@,
                                        masked@,
                                        old(manager)@,
                                        name@,
                                        mode,
                                        data@,
                                    ));
                                }
                            }
                            Some(SavePlan { path, content: masked })
                        },
                        None => Some(SavePlan { path, content }),
                    }
                } else {
                    Some(SavePlan { path, content })
                }
            },
            Err(_) => {
                proof {
                    // a securely stored type's file is JSON, whose writer
                    // cannot fail
                    if mode == PersistMode::Secure {
                        assert(false);
                    }
                    assert(fresh@.data =~= Map::<Seq<char>, StoreModel>::empty().insert(
                        name@,
                        data@,
                    ));
                    assert(!ron_text_ok(file_repr(fresh@)));
                }
                None
            },
        }
    } else {
        manager.persist_file.set_type_data(name.to_owned(), data);
        match manager.save() {
            Ok(plan) => Some(plan),
            Err(_) => None,
        }
    }
}

/// The load hook: picks the store a record's instance is merged from, in
/// the priority order `load_choice` states; nothing found means the
/// instance keeps its defaults, which is no error.
pub fn load_persisted(
    manager: &PersistManager,
    name: &str,
    mode: PersistMode,
    embedded: Option<&str>,
    disk_content: Option<&str>,
) -> (r: Option<PersistData>)
    requires
        manager.wf(),
    ensures
        r matches Some(d) ==> d.wf() && load_choice(
            manager@,
            name@,
            mode,
            view_opt(embedded),
            view_opt(disk_content),
        ) == Some(d@),
        r is None <==> load_choice(
            manager@,
            name@,
            mode,
            view_opt(embedded),
            view_opt(disk_content),
        ) is None,
{
    if manager.production && mode == PersistMode::Embed {
        match embedded {
            Some(e) => {
                match try_codec_store(Codec::Ron, e, name) {
                    Some(d) => {
                        return Some(d);
                    },
                    None => (),
                }
                match try_codec_store(Codec::Json, e, name) {
                    Some(d) => {
                        return Some(d);
                    },
                    None => (),
                }
            },
            None => (),
        }
    } else if manager.production && (mode == PersistMode::Dynamic || mode == PersistMode::Secure) {
        match disk_content {
            Some(text) => {
                match try_disk_store(manager, mode, text, name) {
                    Some(d) => {
                        return Some(d);
                    },
                    None => (),
                }
            },
            None => (),
        }
    }
    match manager.persist_file.get_type_data(name) {
        Some(d) => Some(d.clone()),
        None => None,
    }
}

} // verus!
