//! Durable mount identity and the inventory of what waits to be recovered.
//!
//! No credentials are kept; going on with saved uploads takes a current
//! account of the same storage namespace.

use vstd::prelude::*;
use crate::inventory::FileObservation;
use crate::paths;
use crate::paths::{file_name, place_inside};
use crate::stage::StageRecovery;
use crate::text;
use crate::text::{has_last, has_prefix, joined, same_text, sorts_before};

verus! {

/// The version of the manifests that this library writes.
pub const MANIFEST_VERSION: u32 = 1;

/// The largest manifest that is read.
pub const MAX_MANIFEST_BYTES: u64 = 64 * 1024;

/// Whose storage a mount shows.
#[derive(Clone, Copy, Debug, PartialEq, Eq, Structural)]
pub enum MountProvider {
    R2,
    Aws,
    Minio,
    Rustfs,
}

/// Which storage namespace the saved uploads of a mount belong to.
pub struct MountManifest {
    pub version: u32,
    pub provider: MountProvider,
    pub account_id: String,
    pub bucket: String,
    pub namespace_id: String,
}

/// A manifest with its texts taken as characters.
pub ghost struct ManifestModel {
    pub version: u32,
    pub provider: MountProvider,
    pub account_id: Seq<char>,
    pub bucket: Seq<char>,
    pub namespace_id: Seq<char>,
}

impl View for MountManifest {
    type V = ManifestModel;

    open spec fn view(&self) -> ManifestModel {
        ManifestModel {
            version: self.version,
            provider: self.provider,
            account_id: self.account_id@,
            bucket: self.bucket@,
            namespace_id: self.namespace_id@,
        }
    }
}

/// A character that an identifier may have: a letter, a digit, `-` or `_`, so
/// that it names a folder right below the managed one and nothing else.
pub open spec fn is_id_char(character: char) -> bool {
    let code = character as int;
    ||| 'a' as int <= code <= 'z' as int
    ||| 'A' as int <= code <= 'Z' as int
    ||| '0' as int <= code <= '9' as int
    ||| character == '-'
    ||| character == '_'
}

/// An identifier of saved uploads.
pub open spec fn is_recovery_id(id: Seq<char>) -> bool {
    id.len() > 0 && forall|i: int| 0 <= i < id.len() ==> is_id_char(#[trigger] id[i])
}

/// The folder that an identifier names below the managed root.
pub fn resolve_recovery_dir(root: &str, id: &str) -> (folder: Result<String, String>)
    ensures
        match folder {
            Ok(path) => is_recovery_id(id@) && path@ == paths::inside(root@, id@),
            Err(message) => !is_recovery_id(id@) && message@ == "Invalid recovery identifier"@,
        },
{
    let length: usize = id.unicode_len();
    let mut i: usize = 0;
    let mut valid = length > 0;
    while i < length
        invariant
            length == id@.len(),
            i <= length,
            valid == (length > 0 && forall|j: int| 0 <= j < i ==> is_id_char(#[trigger] id@[j])),
        decreases length - i,
    {
        let character = id.get_char(i);
        if !(('a' <= character && character <= 'z') || ('A' <= character && character <= 'Z') || ('0' <= character && character <= '9')
            || character == '-' || character == '_') {
            valid = false;
        }
        i = i + 1;
    }
    if valid {
        Ok(place_inside(root, id))
    } else {
        Err("Invalid recovery identifier".to_owned())
    }
}

/// An identifier cannot lead out of the managed root: it holds no separator
/// and is not the folder itself or the one above.
pub proof fn an_identifier_stays_below_the_root(id: Seq<char>)
    requires
        is_recovery_id(id),
    ensures
        !id.contains('/'),
        !id.contains('\\'),
        id != "."@,
        id != ".."@,
        id.len() > 0,
{
    assert(!is_id_char('/') && !is_id_char('\\') && !is_id_char('.'));
    reveal_strlit(".");
    reveal_strlit("..");
    assert("."@[0] == '.' && ".."@[0] == '.');
    assert(is_id_char(id[0]));
    if id.contains('/') {
        let i = choose|i: int| 0 <= i < id.len() && id[i] == '/';
        assert(is_id_char(id[i]));
    }
    if id.contains('\\') {
        let i = choose|i: int| 0 <= i < id.len() && id[i] == '\\';
        assert(is_id_char(id[i]));
    }
}

/// Whether a folder of saved uploads is one: a real directory, not a link.
pub fn check_recovery_dir(is_dir: bool, is_symlink: bool) -> (check: Result<(), String>)
    ensures
        match check {
            Ok(()) => is_dir && !is_symlink,
            Err(message) => !(is_dir && !is_symlink) && message@ == "Recovery folder must be a real directory"@,
        },
{
    if is_dir && !is_symlink {
        Ok(())
    } else {
        Err("Recovery folder must be a real directory".to_owned())
    }
}

/// The manifest of a mount.
pub fn mount_manifest(provider: MountProvider, account_id: &str, bucket: &str, namespace_id: &str) -> (manifest: MountManifest)
    ensures
        manifest@ == (ManifestModel {
            version: MANIFEST_VERSION,
            provider,
            account_id: account_id@,
            bucket: bucket@,
            namespace_id: namespace_id@,
        }),
{
    MountManifest {
        version: MANIFEST_VERSION,
        provider,
        account_id: account_id.to_owned(),
        bucket: bucket.to_owned(),
        namespace_id: namespace_id.to_owned(),
    }
}

/// What was found of a manifest.
pub enum ManifestFound {
    /// Its file could not be looked at.
    Unseen(String),
    /// Its file could not be read.
    Unread(FileObservation, String),
    /// Its file holds something else.
    Unparsed(FileObservation, String),
    /// It was read.
    Parsed(FileObservation, MountManifest),
}

/// What a manifest's file was seen to be.
pub open spec fn seen_as(found: ManifestFound) -> Option<FileObservation> {
    match found {
        ManifestFound::Unseen(_) => None,
        ManifestFound::Unread(observation, _) => Some(observation),
        ManifestFound::Unparsed(observation, _) => Some(observation),
        ManifestFound::Parsed(observation, _) => Some(observation),
    }
}

/// A manifest's file is a real file and not too large.
pub open spec fn is_manifest_file(observation: FileObservation) -> bool {
    observation.is_regular() && observation.length <= MAX_MANIFEST_BYTES
}

/// Why a manifest cannot be used.
pub open spec fn manifest_complaint(found: ManifestFound) -> Option<Seq<char>> {
    if seen_as(found) is Some && !is_manifest_file(seen_as(found)->0) {
        Some("Invalid mount identity manifest"@)
    } else {
        match found {
            ManifestFound::Unseen(message) => Some("Mount identity is unavailable: "@ + message@),
            ManifestFound::Unread(_, message) => Some(message@),
            ManifestFound::Unparsed(_, message) => Some("Invalid mount identity: "@ + message@),
            ManifestFound::Parsed(_, manifest) => if manifest.version != MANIFEST_VERSION {
                Some("Unsupported mount recovery version"@)
            } else {
                None
            },
        }
    }
}

fn is_usable_file(observation: &FileObservation) -> (usable: bool)
    ensures
        usable == is_manifest_file(*observation),
{
    observation.is_file && !observation.is_symlink && observation.length <= MAX_MANIFEST_BYTES
}

/// The manifest of a mount, or why it cannot be used.
pub fn load_manifest(found: ManifestFound) -> (manifest: Result<MountManifest, String>)
    ensures
        match manifest {
            Ok(read) => manifest_complaint(found) is None && found is Parsed && read == found->Parsed_1,
            Err(message) => manifest_complaint(found) == Some(message@),
        },
{
    match found {
        ManifestFound::Unseen(message) => Err(joined("Mount identity is unavailable: ", message.as_str())),
        ManifestFound::Unread(observation, message) => {
            if is_usable_file(&observation) {
                Err(message)
            } else {
                Err("Invalid mount identity manifest".to_owned())
            }
        },
        ManifestFound::Unparsed(observation, message) => {
            if is_usable_file(&observation) {
                Err(joined("Invalid mount identity: ", message.as_str()))
            } else {
                Err("Invalid mount identity manifest".to_owned())
            }
        },
        ManifestFound::Parsed(observation, manifest) => {
            if !is_usable_file(&observation) {
                Err("Invalid mount identity manifest".to_owned())
            } else if manifest.version != MANIFEST_VERSION {
                Err("Unsupported mount recovery version".to_owned())
            } else {
                Ok(manifest)
            }
        },
    }
}

/// The saved uploads belong to exactly this namespace.
pub open spec fn is_same_namespace(
    manifest: ManifestModel,
    provider: MountProvider,
    account_id: Seq<char>,
    bucket: Seq<char>,
    namespace_id: Seq<char>,
) -> bool {
    manifest.provider == provider && manifest.account_id == account_id && manifest.bucket == bucket && manifest.namespace_id == namespace_id
}

/// Whether the saved uploads of a mount may be sent to this namespace: only to
/// the one that they were made for.
pub fn validate_identity(
    found: ManifestFound,
    provider: MountProvider,
    account_id: &str,
    bucket: &str,
    namespace_id: &str,
) -> (check: Result<(), String>)
    ensures
        match check {
            Ok(()) => manifest_complaint(found) is None && is_same_namespace(
                (found->Parsed_1)@,
                provider,
                account_id@,
                bucket@,
                namespace_id@,
            ),
            Err(message) => match manifest_complaint(found) {
                Some(complaint) => message@ == complaint,
                None => !is_same_namespace((found->Parsed_1)@, provider, account_id@, bucket@, namespace_id@) && message@
                    == "The saved uploads belong to a different storage namespace; export them or select the original account"@,
            },
        },
{
    match load_manifest(found) {
        Err(message) => Err(message),
        Ok(manifest) => {
            if manifest.provider == provider && same_text(manifest.account_id.as_str(), account_id) && same_text(
                manifest.bucket.as_str(),
                bucket,
            ) && same_text(manifest.namespace_id.as_str(), namespace_id) {
                Ok(())
            } else {
                Err(
                    "The saved uploads belong to a different storage namespace; export them or select the original account".to_owned(),
                )
            }
        },
    }
}

/// A saved identity admits the uploads of its own namespace, and of no other.
pub proof fn a_saved_identity_admits_its_own_namespace(
    seen: FileObservation,
    manifest: MountManifest,
    provider: MountProvider,
    account_id: Seq<char>,
    bucket: Seq<char>,
    namespace_id: Seq<char>,
)
    requires
        is_manifest_file(seen),
        manifest@.version == MANIFEST_VERSION,
    ensures
        manifest_complaint(ManifestFound::Parsed(seen, manifest)) is None,
        is_same_namespace(manifest@, provider, account_id, bucket, namespace_id) <==> manifest@ == (ManifestModel {
            version: MANIFEST_VERSION,
            provider,
            account_id,
            bucket,
            namespace_id,
        }),
{
}

/// What waits to be recovered in one folder.
pub struct MountRecovery {
    pub recovery_id: String,
    pub provider: Option<MountProvider>,
    pub account_id: Option<String>,
    pub bucket: Option<String>,
    pub namespace_id: Option<String>,
    pub path: String,
    pub files: Vec<StageRecovery>,
    pub error: Option<String>,
    pub active: bool,
}

/// What is wrong with a folder: the last of what went wrong is shown.
pub open spec fn folder_error(
    manifest: Result<MountManifest, String>,
    entries: Result<Vec<StageRecovery>, String>,
    operations: Result<Vec<StageRecovery>, String>,
) -> Option<Seq<char>> {
    if operations is Err {
        Some((operations->Err_0)@)
    } else if entries is Err {
        Some((entries->Err_0)@)
    } else if manifest is Err {
        Some((manifest->Err_0)@)
    } else {
        None
    }
}

/// The records of a folder: its staged files, then its interrupted changes.
pub open spec fn folder_files(
    entries: Result<Vec<StageRecovery>, String>,
    operations: Result<Vec<StageRecovery>, String>,
) -> Seq<StageRecovery> {
    (match entries {
        Ok(files) => files@,
        Err(_) => Seq::empty(),
    }) + (match operations {
        Ok(files) => files@,
        Err(_) => Seq::empty(),
    })
}

/// What is shown of one folder. A folder without records and without an error
/// is not shown; one whose manifest cannot be used is, with what it holds.
pub fn describe_folder(
    id_prefix: &str,
    name: &str,
    path: String,
    manifest: Result<MountManifest, String>,
    entries: Result<Vec<StageRecovery>, String>,
    operations: Result<Vec<StageRecovery>, String>,
    active: bool,
) -> (recovery: Option<MountRecovery>)
    ensures
        ({
            let files = folder_files(entries, operations);
            let error = folder_error(manifest, entries, operations);
            match recovery {
                None => files.len() == 0 && error is None,
                Some(shown) => {
                    &&& files.len() > 0 || error is Some
                    &&& shown.recovery_id@ == id_prefix@ + name@
                    &&& shown.path == path
                    &&& shown.files@ == files
                    &&& text::optional(shown.error) == error
                    &&& shown.active == active
                    &&& match manifest {
                        Ok(identity) => {
                            &&& shown.provider == Some(identity.provider)
                            &&& text::optional(shown.account_id) == Some(identity.account_id@)
                            &&& text::optional(shown.bucket) == Some(identity.bucket@)
                            &&& text::optional(shown.namespace_id) == Some(identity.namespace_id@)
                        },
                        Err(_) => shown.provider is None && shown.account_id is None && shown.bucket is None && shown.namespace_id is None,
                    }
                },
            }
        }),
{
    let mut error: Option<String> = None;
    let identity: Option<MountManifest> = match manifest {
        Ok(identity) => Some(identity),
        Err(message) => {
            error = Some(message);
            None
        },
    };
    let mut files: Vec<StageRecovery> = match entries {
        Ok(files) => files,
        Err(message) => {
            error = Some(message);
            Vec::new()
        },
    };
    let ghost staged = files@;
    assert(staged == (match entries {
        Ok(files) => files@,
        Err(_) => Seq::empty(),
    }));
    match operations {
        Ok(mut more) => {
            let ghost added = more@;
            files.append(&mut more);
            assert(files@ =~= staged + added);
        },
        Err(message) => {
            error = Some(message);
            assert(files@ =~= staged + Seq::empty());
        },
    }
    if files.len() == 0 && error.is_none() {
        return None;
    }
    let recovery_id = joined(id_prefix, name);
    match identity {
        Some(identity) => Some(
            MountRecovery {
                recovery_id,
                provider: Some(identity.provider),
                account_id: Some(identity.account_id),
                bucket: Some(identity.bucket),
                namespace_id: Some(identity.namespace_id),
                path,
                files,
                error,
                active,
            },
        ),
        None => Some(
            MountRecovery {
                recovery_id,
                provider: None,
                account_id: None,
                bucket: None,
                namespace_id: None,
                path,
                files,
                error,
                active,
            },
        ),
    }
}

/// The folders stand in the order of their identifiers.
pub open spec fn in_id_order(recoveries: Seq<MountRecovery>) -> bool {
    forall|i: int, j: int|
        0 <= i < j < recoveries.len() ==> text::precedes_or_same((#[trigger] recoveries[i]).recovery_id@, (#[trigger] recoveries[j]).recovery_id@)
}

/// Adds a folder in its place, behind those with the same identifier.
pub fn insert_in_order(recoveries: &mut Vec<MountRecovery>, recovery: MountRecovery)
    requires
        in_id_order(old(recoveries)@),
    ensures
        in_id_order(final(recoveries)@),
        exists|place: int|
            0 <= place <= old(recoveries)@.len() && final(recoveries)@ == #[trigger] old(recoveries)@.insert(place, recovery),
{
    let ghost before = recoveries@;
    let mut place: usize = recoveries.len();
    while place > 0 && sorts_before(recovery.recovery_id.as_str(), recoveries[place - 1].recovery_id.as_str())
        invariant
            place <= recoveries.len(),
            before == recoveries@,
            forall|i: int| place <= i < before.len() ==> text::precedes(recovery.recovery_id@, (#[trigger] before[i]).recovery_id@),
        decreases place,
    {
        place = place - 1;
    }
    let ghost id = recovery.recovery_id@;
    proof {
        if place > 0 {
            text::precedes_is_total(id, before[place - 1].recovery_id@);
        }
    }
    recoveries.insert(place, recovery);
    proof {
        let after = recoveries@;
        assert forall|i: int, j: int| 0 <= i < j < after.len() implies text::precedes_or_same(
            (#[trigger] after[i]).recovery_id@,
            (#[trigger] after[j]).recovery_id@,
        ) by {
            let a = if i < place { i } else { i - 1 };
            let b = if j < place { j } else { j - 1 };
            if i != place && j != place {
                assert(text::precedes_or_same(before[a].recovery_id@, before[b].recovery_id@));
            } else if i == place {
                assert(text::precedes(id, before[b].recovery_id@));
            } else {
                if a < place - 1 {
                    assert(text::precedes_or_same(before[a].recovery_id@, before[place - 1].recovery_id@));
                    if text::precedes(before[a].recovery_id@, before[place - 1].recovery_id@) && text::precedes(before[place - 1].recovery_id@, id) {
                        text::precedes_is_transitive(before[a].recovery_id@, before[place - 1].recovery_id@, id);
                    }
                }
            }
        }
        assert(before.insert(place as int, recovery) == after);
    }
}

/// A path lies in a folder, or is it. Both are absolute and have no links,
/// dots or trailing separators.
pub open spec fn lies_in(path: Seq<char>, folder: Seq<char>) -> bool {
    path == folder || (folder.is_prefix_of(path) && (text::ends_with(folder, '/') || path[folder.len() as int] == '/'))
}

/// Where a folder of saved uploads is exported to: into a new folder inside
/// the one that was chosen, which must not lie in the saved one.
pub fn export_target(source: &str, destination: &str) -> (target: Result<String, String>)
    ensures
        match target {
            Ok(path) => {
                &&& !lies_in(destination@, source@)
                &&& paths::file_name_of(source@) is Some
                &&& path@ == paths::inside(destination@, "r2-recovery-"@ + paths::file_name_of(source@)->0)
            },
            Err(message) => if lies_in(destination@, source@) {
                message@ == "Export must be outside the recovery folder"@
            } else {
                paths::file_name_of(source@) is None && message@ == "Invalid recovery folder"@
            },
        },
{
    let mut inside = same_text(destination, source);
    if !inside && has_prefix(destination, source) {
        let length: usize = source.unicode_len();
        proof {
            if destination@.len() == source@.len() {
                assert(destination@ =~= source@);
            }
        }
        inside = has_last(source, '/') || destination.get_char(length) == '/';
    }
    if inside {
        return Err("Export must be outside the recovery folder".to_owned());
    }
    match file_name(source) {
        Some(name) => {
            let folder = joined("r2-recovery-", name.as_str());
            Ok(place_inside(destination, folder.as_str()))
        },
        None => Err("Invalid recovery folder".to_owned()),
    }
}

/// What an export does with one entry of a folder.
#[derive(Clone, Copy, Debug, PartialEq, Eq, Structural)]
pub enum ExportStep {
    /// Makes a folder of the same name and goes on inside.
    Descend,
    /// Copies the file.
    Copy,
}

/// What an export does with one entry of a folder. Links and anything else
/// that is no file stop it.
pub fn export_step(is_dir: bool, is_file: bool) -> (step: Result<ExportStep, String>)
    ensures
        match step {
            Ok(step) => (is_dir || is_file) && step == (if is_dir {
                ExportStep::Descend
            } else {
                ExportStep::Copy
            }),
            Err(message) => !is_dir && !is_file && message@ == "Recovery contains a link or unsupported file; export stopped"@,
        },
{
    if is_dir {
        Ok(ExportStep::Descend)
    } else if is_file {
        Ok(ExportStep::Copy)
    } else {
        Err("Recovery contains a link or unsupported file; export stopped".to_owned())
    }
}

/// An identifier is made of letters, digits, `-` and `_`, at least one.
pub proof fn an_identifier_is_plain(id: Seq<char>)
    ensures
        is_recovery_id(id) <==> id.len() > 0 && forall|i: int|
            0 <= i < id.len() ==> {
                let c = #[trigger] id[i];
                ||| 'a' <= c <= 'z'
                ||| 'A' <= c <= 'Z'
                ||| '0' <= c <= '9'
                ||| c == '-'
                ||| c == '_'
            },
{
    if is_recovery_id(id) {
        assert forall|i: int| 0 <= i < id.len() implies {
            let c = #[trigger] id[i];
            ||| 'a' <= c <= 'z'
            ||| 'A' <= c <= 'Z'
            ||| '0' <= c <= '9'
            ||| c == '-'
            ||| c == '_'
        } by {
            assert(is_id_char(id[i]));
        }
    }
}

/// A manifest can be used exactly where its file is a regular one of at most
/// sixty-four kibibytes, was read, and is of the first version. What is wrong
/// otherwise says so.
pub proof fn a_manifest_is_used_where_it_was_read_whole(found: ManifestFound)
    ensures
        manifest_complaint(found) is None <==> {
            &&& found is Parsed
            &&& found->Parsed_0.is_file
            &&& !found->Parsed_0.is_symlink
            &&& found->Parsed_0.length <= 65_536
            &&& found->Parsed_1.version == 1
        },
        found matches ManifestFound::Unseen(message) ==> manifest_complaint(found) == Some("Mount identity is unavailable: "@ + message@),
        found is Parsed && (!found->Parsed_0.is_file || found->Parsed_0.is_symlink) ==> manifest_complaint(found) == Some(
            "Invalid mount identity manifest"@,
        ),
        found is Unread && found->Unread_0.is_file && !found->Unread_0.is_symlink && found->Unread_0.length <= 65_536
            ==> manifest_complaint(found) == Some((found->Unread_1)@),
{
}

/// A folder shows an error exactly where something about it went wrong, and
/// all the records that could be read of it.
pub proof fn a_folder_shows_what_was_read(
    manifest: Result<MountManifest, String>,
    entries: Result<Vec<StageRecovery>, String>,
    operations: Result<Vec<StageRecovery>, String>,
    record: StageRecovery,
)
    ensures
        folder_error(manifest, entries, operations) is None <==> manifest is Ok && entries is Ok && operations is Ok,
        manifest is Err && entries is Ok && operations is Ok ==> folder_error(manifest, entries, operations) == Some((manifest->Err_0)@),
        entries is Err && operations is Ok ==> folder_error(manifest, entries, operations) == Some((entries->Err_0)@),
        operations is Err ==> folder_error(manifest, entries, operations) == Some((operations->Err_0)@),
        entries is Ok && (entries->Ok_0)@.contains(record) ==> folder_files(entries, operations).contains(record),
        operations is Ok && (operations->Ok_0)@.contains(record) ==> folder_files(entries, operations).contains(record),
        folder_files(entries, operations).contains(record) ==> (entries is Ok && (entries->Ok_0)@.contains(record)) || (operations is Ok && (
        operations->Ok_0)@.contains(record)),
{
    let a: Seq<StageRecovery> = match entries {
        Ok(files) => files@,
        Err(_) => Seq::empty(),
    };
    let b: Seq<StageRecovery> = match operations {
        Ok(files) => files@,
        Err(_) => Seq::empty(),
    };
    let all = folder_files(entries, operations);
    assert(all == a + b);
    if a.contains(record) {
        let i = choose|i: int| 0 <= i < a.len() && a[i] == record;
        assert(all[i] == record);
    }
    if b.contains(record) {
        let i = choose|i: int| 0 <= i < b.len() && b[i] == record;
        assert(all[a.len() + i] == record);
    }
    if all.contains(record) {
        let i = choose|i: int| 0 <= i < all.len() && all[i] == record;
        if i < a.len() {
            assert(a[i] == record);
        } else {
            assert(b[i - a.len()] == record);
        }
    }
}

/// A folder lies in itself, and so does everything below it; a folder whose
/// name merely begins like it does not.
pub proof fn what_lies_below_lies_in(folder: Seq<char>, rest: Seq<char>)
    requires
        folder.len() > 0,
        !text::ends_with(folder, '/'),
    ensures
        lies_in(folder, folder),
        lies_in(folder.push('/') + rest, folder),
        rest.len() > 0 && rest[0] != '/' ==> !lies_in(folder + rest, folder),
{
    let below = folder.push('/') + rest;
    assert(below.subrange(0, folder.len() as int) =~= folder);
    assert(folder.is_prefix_of(below));
    assert(below[folder.len() as int] == '/');
    if rest.len() > 0 && rest[0] != '/' {
        assert((folder + rest)[folder.len() as int] == rest[0]);
        assert((folder + rest).len() != folder.len());
    }
}

/// Saved uploads are sent on exactly to the namespace that they were made for.
pub proof fn saved_uploads_go_to_their_own_namespace(
    found: ManifestFound,
    provider: MountProvider,
    account_id: &str,
    bucket: &str,
    namespace_id: &str,
    check: Result<(), String>,
)
    requires
        call_ensures(validate_identity, (found, provider, account_id, bucket, namespace_id), check),
    ensures
        check is Ok <==> {
            &&& found is Parsed
            &&& found->Parsed_0.is_file
            &&& !found->Parsed_0.is_symlink
            &&& found->Parsed_0.length <= 65_536
            &&& found->Parsed_1.version == 1
            &&& found->Parsed_1.provider == provider
            &&& found->Parsed_1.account_id@ == account_id@
            &&& found->Parsed_1.bucket@ == bucket@
            &&& found->Parsed_1.namespace_id@ == namespace_id@
        },
{
}

/// A folder of saved uploads is a real directory right below the managed one,
/// under an identifier of plain characters.
pub proof fn a_recovery_folder_is_a_real_one(root: &str, id: &str, folder: Result<String, String>, is_dir: bool, is_symlink: bool, check: Result<(), String>)
    requires
        call_ensures(resolve_recovery_dir, (root, id), folder),
        call_ensures(check_recovery_dir, (is_dir, is_symlink), check),
    ensures
        folder is Ok <==> is_recovery_id(id@),
        folder is Ok && root@.len() > 0 && root@.last() != '/' ==> (folder->Ok_0)@ == root@.push('/') + id@,
        check is Ok <==> is_dir && !is_symlink,
{
}

/// A mount is saved under just the namespace it has.
pub proof fn a_mount_is_saved_under_its_namespace(
    provider: MountProvider,
    account_id: &str,
    bucket: &str,
    namespace_id: &str,
    manifest: MountManifest,
)
    requires
        call_ensures(mount_manifest, (provider, account_id, bucket, namespace_id), manifest),
    ensures
        manifest.version == 1,
        manifest.provider == provider,
        manifest.account_id@ == account_id@,
        manifest.bucket@ == bucket@,
        manifest.namespace_id@ == namespace_id@,
{
}

/// A folder is shown exactly where something waits in it or something about it
/// went wrong, with everything that could be read.
pub proof fn a_folder_is_shown_where_something_waits(
    id_prefix: &str,
    name: &str,
    path: String,
    manifest: Result<MountManifest, String>,
    entries: Result<Vec<StageRecovery>, String>,
    operations: Result<Vec<StageRecovery>, String>,
    active: bool,
    recovery: Option<MountRecovery>,
)
    requires
        call_ensures(describe_folder, (id_prefix, name, path, manifest, entries, operations, active), recovery),
    ensures
        entries is Ok && (entries->Ok_0)@.len() > 0 ==> recovery is Some,
        operations is Ok && (operations->Ok_0)@.len() > 0 ==> recovery is Some,
        manifest is Err || entries is Err || operations is Err ==> recovery is Some && recovery->0.error is Some,
        recovery is None ==> entries is Ok && (entries->Ok_0)@.len() == 0 && operations is Ok && (operations->Ok_0)@.len() == 0 && manifest is Ok,
        recovery is Some ==> recovery->0.path == path && recovery->0.active == active && recovery->0.recovery_id@ == id_prefix@ + name@,
        recovery is Some && manifest is Ok ==> recovery->0.provider == Some(manifest->Ok_0.provider) && recovery->0.bucket is Some && (
        recovery->0.bucket->0)@ == manifest->Ok_0.bucket@,
        recovery is Some && entries is Ok && operations is Ok ==> recovery->0.files@ == (entries->Ok_0)@ + (operations->Ok_0)@,
{
}

/// Saved uploads are exported into a folder of their own outside the saved
/// one; directories are entered, files copied, and anything else stops it.
pub proof fn an_export_lies_outside_what_it_exports(
    source: &str,
    destination: &str,
    target: Result<String, String>,
    is_dir: bool,
    is_file: bool,
    step: Result<ExportStep, String>,
)
    requires
        call_ensures(export_target, (source, destination), target),
        call_ensures(export_step, (is_dir, is_file), step),
    ensures
        target is Ok ==> !lies_in(destination@, source@),
        lies_in(destination@, source@) ==> target is Err,
        !lies_in(destination@, source@) && paths::file_name_of(source@) is Some ==> target is Ok,
        step is Ok <==> is_dir || is_file,
        is_dir ==> step is Ok && step->Ok_0 == ExportStep::Descend,
        !is_dir && is_file ==> step is Ok && step->Ok_0 == ExportStep::Copy,
{
}

} // verus!
