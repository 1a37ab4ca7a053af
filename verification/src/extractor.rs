//! The operations that the watcher of a key directory shares with the imports it starts.

use crate::imported::{ImportedKeyFiles, LockPoisoned};
use crate::path::{Component, KeyPath};
use vstd::prelude::*;

verus! {

/// Extracts what a configuration describes into a QKD manager.
#[derive(Debug)]
pub struct ConfigExtractor {}

/// Whether a path can be reserved: it is not in the set yet.
pub open spec fn can_reserve(files: Set<Seq<Component>>, path: Seq<Component>) -> bool {
    !files.contains(path)
}

/// The set after a path is reserved, or was found to be.
pub open spec fn reserved(files: Set<Seq<Component>>, path: Seq<Component>) -> Set<
    Seq<Component>,
> {
    files.insert(path)
}

/// The set after a path is freed.
pub open spec fn freed(files: Set<Seq<Component>>, path: Seq<Component>) -> Set<Seq<Component>> {
    files.remove(path)
}

impl ConfigExtractor {
    /// Reserves a path, so that two events cannot import the same file at the same time.
    /// Returns true if this call reserved the path.
    ///
    /// Takes what came of locking the set of imported key files.
    pub fn reserve_key_file(
        imported_key_files: Result<&mut ImportedKeyFiles, LockPoisoned>,
        path: &KeyPath,
    ) -> (did_reserve: bool)
        ensures
            match imported_key_files {
                Ok(files) => {
                    &&& did_reserve == can_reserve(files@, path@)
                    &&& did_reserve == !files@.contains(path@)
                    &&& final(files)@ == reserved(files@, path@)
                    &&& final(files)@ == files@.insert(path@)
                },
                Err(_) => !did_reserve,
            },
    {
        match imported_key_files {
            Ok(files) => files.insert(path.copy()),
            Err(_) => false,
        }
    }

    /// Removes a path from the reserved paths.
    ///
    /// Takes what came of locking the set of imported key files.
    pub fn free_key_file(
        imported_key_files: Result<&mut ImportedKeyFiles, LockPoisoned>,
        path: &KeyPath,
    )
        ensures
            imported_key_files matches Ok(files) ==> {
                &&& final(files)@ == freed(files@, path@)
                &&& final(files)@ == files@.remove(path@)
            },
    {
        match imported_key_files {
            Ok(files) => files.remove(path),
            Err(_) => {},
        }
    }

    /// Whether a file path has the extension of key files.
    ///
    /// The result is that of `KeyPath::is_key_file` on the components that the platform finds.
    /// Which they are depends on the platform only for a path with a `\`, with a colon as second
    /// character, or with two separators at the beginning.
    pub fn check_file_extension_qkd_keys(file_path: &str) -> (yes: bool)
        ensures
            !crate::path::may_have_prefix(file_path@) && !file_path@.contains('\\') ==> yes
                == crate::path::is_key_file(crate::path::components(file_path@)),
            !crate::path::may_have_prefix(file_path@) ==> {
                ||| yes == crate::path::is_key_file(crate::path::components(file_path@))
                ||| yes == crate::path::is_key_file(
                    crate::path::components(crate::path::slashed(file_path@)),
                )
            },
            crate::path::may_have_drive(file_path@) ==> {
                ||| yes == crate::path::is_key_file(crate::path::components(file_path@))
                ||| yes == crate::path::is_key_file(
                    crate::path::components(crate::path::slashed(file_path@)),
                )
                ||| yes == crate::path::is_key_file(
                    crate::path::components(crate::path::slashed(file_path@.skip(2))),
                )
            },
            crate::path::may_have_share(file_path@) && !file_path@.contains('\\') && yes
                ==> crate::path::is_key_file(crate::path::components(file_path@)),
            crate::path::may_have_share(file_path@) && !file_path@.contains('\\')
                && crate::path::outlasts_share(file_path@) ==> yes == crate::path::is_key_file(
                crate::path::components(file_path@),
            ),
            yes ==> crate::path::has_part(
                file_path@,
                seq!['.'] + crate::path::QKD_KEY_FILE_EXTENSION@,
            ),
    {
        let path = KeyPath::new(file_path);
        proof {
            if !file_path@.contains('\\') {
                crate::path::lemma_slashed_is_same(file_path@);
            }
            if crate::path::is_key_file(path@) {
                crate::path::law_key_file_text(path@, file_path@);
            }
            crate::path::lemma_no_name_first(path@);
            crate::path::lemma_no_name_first(
                crate::path::components(crate::path::slashed(file_path@.skip(2))),
            );
        }
        path.is_key_file()
    }
}

/// A path that was reserved cannot be reserved again.
pub proof fn law_reserve_once(files: Set<Seq<Component>>, path: Seq<Component>)
    ensures
        !can_reserve(reserved(files, path), path),
        reserved(reserved(files, path), path) == reserved(files, path),
{
    assert(reserved(reserved(files, path), path) =~= reserved(files, path));
}

/// After a path is freed, it can be reserved again; and freeing it undoes its reservation.
pub proof fn law_free_allows_reserve(files: Set<Seq<Component>>, path: Seq<Component>)
    ensures
        can_reserve(freed(files, path), path),
        can_reserve(files, path) ==> freed(reserved(files, path), path) == files,
{
    if can_reserve(files, path) {
        assert(freed(reserved(files, path), path) =~= files);
    }
}

/// Neither reserving nor freeing a path changes whether a different path can be reserved.
pub proof fn law_paths_independent(
    files: Set<Seq<Component>>,
    path: Seq<Component>,
    other: Seq<Component>,
)
    requires
        path != other,
    ensures
        can_reserve(reserved(files, path), other) == can_reserve(files, other),
        can_reserve(freed(files, path), other) == can_reserve(files, other),
{
}

/// A path can be reserved exactly if it is not in the set. Reserving a path adds it, freeing it
/// takes it out, and neither touches any other path.
pub proof fn law_reservations_are_members(
    files: Set<Seq<Component>>,
    path: Seq<Component>,
    other: Seq<Component>,
)
    ensures
        can_reserve(files, path) <==> !files.contains(path),
        reserved(files, path).contains(other) <==> files.contains(other) || other == path,
        freed(files, path).contains(other) <==> files.contains(other) && other != path,
{
}

/// A text that is a name in a directory passes for a key file exactly when the name ends in
/// `.cor`, with something before it.
pub proof fn law_key_file_in_dir(dir: Seq<char>, name: Seq<char>)
    requires
        name.len() > 0,
        !name.contains('/'),
        name != seq!['.'],
    ensures
        crate::path::is_key_file(crate::path::components((dir + seq!['/']) + name)) <==> {
            &&& name.len() > 4
            &&& name[name.len() - 4] == '.'
            &&& name[name.len() - 3] == 'c'
            &&& name[name.len() - 2] == 'o'
            &&& name[name.len() - 1] == 'r'
        },
{
    crate::path::law_last_component_decides(dir, name);
    crate::path::law_components_of_name(name);
    crate::path::law_key_file_ends_in_cor(crate::path::components(name));
}

} // verus!
