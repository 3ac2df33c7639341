//! The statuses that an NFS request can be answered with.

use vstd::prelude::*;
use crate::text::same_text;

verus! {

/// Why a request was refused.
#[derive(Clone, Copy, Debug, PartialEq, Eq, Structural)]
pub enum NfsStatus {
    /// No such file or directory.
    NoEnt,
    /// I/O error.
    Io,
    /// Permission denied.
    Acces,
    /// The name is taken.
    Exist,
    /// Not a directory.
    NotDir,
    /// Is a directory.
    IsDir,
    /// Invalid argument.
    Inval,
    /// The file would be too large.
    FBig,
    /// No space left.
    NoSpc,
    /// The file system is read-only.
    RoFs,
    /// The directory is not empty.
    NotEmpty,
    /// The file handle no longer stands for anything.
    Stale,
    /// The directory cookie is stale or foreign.
    BadCookie,
    /// The operation is not supported.
    NotSupp,
    /// The server's own state is unusable.
    ServerFault,
    /// Busy; try again later.
    JukeBox,
}

impl NfsStatus {
    /// The name of the status in the protocol.
    pub open spec fn spelled(self) -> Seq<char> {
        match self {
            NfsStatus::NoEnt => "NFS3ERR_NOENT"@,
            NfsStatus::Io => "NFS3ERR_IO"@,
            NfsStatus::Acces => "NFS3ERR_ACCES"@,
            NfsStatus::Exist => "NFS3ERR_EXIST"@,
            NfsStatus::NotDir => "NFS3ERR_NOTDIR"@,
            NfsStatus::IsDir => "NFS3ERR_ISDIR"@,
            NfsStatus::Inval => "NFS3ERR_INVAL"@,
            NfsStatus::FBig => "NFS3ERR_FBIG"@,
            NfsStatus::NoSpc => "NFS3ERR_NOSPC"@,
            NfsStatus::RoFs => "NFS3ERR_ROFS"@,
            NfsStatus::NotEmpty => "NFS3ERR_NOTEMPTY"@,
            NfsStatus::Stale => "NFS3ERR_STALE"@,
            NfsStatus::BadCookie => "NFS3ERR_BAD_COOKIE"@,
            NfsStatus::NotSupp => "NFS3ERR_NOTSUPP"@,
            NfsStatus::ServerFault => "NFS3ERR_SERVERFAULT"@,
            NfsStatus::JukeBox => "NFS3ERR_JUKEBOX"@,
        }
    }

    /// The name of the status in the protocol.
    pub fn name(self) -> (name: &'static str)
        ensures
            name@ == self.spelled(),
    {
        match self {
            NfsStatus::NoEnt => "NFS3ERR_NOENT",
            NfsStatus::Io => "NFS3ERR_IO",
            NfsStatus::Acces => "NFS3ERR_ACCES",
            NfsStatus::Exist => "NFS3ERR_EXIST",
            NfsStatus::NotDir => "NFS3ERR_NOTDIR",
            NfsStatus::IsDir => "NFS3ERR_ISDIR",
            NfsStatus::Inval => "NFS3ERR_INVAL",
            NfsStatus::FBig => "NFS3ERR_FBIG",
            NfsStatus::NoSpc => "NFS3ERR_NOSPC",
            NfsStatus::RoFs => "NFS3ERR_ROFS",
            NfsStatus::NotEmpty => "NFS3ERR_NOTEMPTY",
            NfsStatus::Stale => "NFS3ERR_STALE",
            NfsStatus::BadCookie => "NFS3ERR_BAD_COOKIE",
            NfsStatus::NotSupp => "NFS3ERR_NOTSUPP",
            NfsStatus::ServerFault => "NFS3ERR_SERVERFAULT",
            NfsStatus::JukeBox => "NFS3ERR_JUKEBOX",
        }
    }
}

/// How a failed storage operation is classified.
#[derive(Clone, Copy, Debug, PartialEq, Eq, Structural)]
pub enum StorageErrorClass {
    /// The credentials were refused.
    NeedsAuth,
    /// The object, bucket or upload does not exist.
    NotFound,
    /// The same request may succeed later.
    Transient,
    /// The request may or may not have taken effect.
    OutcomeUnknown,
    /// The request cannot succeed.
    Permanent,
}

/// The codes by which a store denies access.
pub open spec fn is_denial(code: Seq<char>) -> bool {
    ||| code == "AccessDenied"@
    ||| code == "AllAccessDisabled"@
    ||| code == "InvalidAccessKeyId"@
    ||| code == "SignatureDoesNotMatch"@
}

/// The codes by which a store says that something does not exist.
pub open spec fn is_absence(code: Seq<char>) -> bool {
    ||| code == "NoSuchKey"@
    ||| code == "NoSuchBucket"@
    ||| code == "NotFound"@
}

/// The status that an error code stands for.
pub open spec fn status_of_code(code: Option<Seq<char>>) -> NfsStatus {
    match code {
        Some(text) => if is_denial(text) {
            NfsStatus::Acces
        } else if is_absence(text) {
            NfsStatus::NoEnt
        } else {
            NfsStatus::Io
        },
        None => NfsStatus::Io,
    }
}

/// NFS status for an S3 error code, so the client reports "permission denied"
/// and "no such file" as themselves rather than as a blanket I/O error.
pub fn status_for_s3_code(code: Option<&str>) -> (status: NfsStatus)
    ensures
        status == status_of_code(
            match code {
                Some(text) => Some(text@),
                None => None,
            },
        ),
{
    match code {
        Some(text) => {
            if same_text(text, "AccessDenied") || same_text(text, "AllAccessDisabled")
                || same_text(text, "InvalidAccessKeyId") || same_text(text, "SignatureDoesNotMatch") {
                NfsStatus::Acces
            } else if same_text(text, "NoSuchKey") || same_text(text, "NoSuchBucket")
                || same_text(text, "NotFound") {
                NfsStatus::NoEnt
            } else {
                NfsStatus::Io
            }
        },
        None => NfsStatus::Io,
    }
}

/// Whether a failed HEAD means that the object does not exist: the code says
/// absent, and it is not the bucket that is missing.
pub fn head_error_means_absent(code: Option<&str>) -> (absent: bool)
    ensures
        absent == (code matches Some(text) && (text@ == "NoSuchKey"@ || text@ == "NotFound"@)),
{
    match code {
        Some(text) => same_text(text, "NoSuchKey") || same_text(text, "NotFound"),
        None => false,
    }
}

/// The status that a failed storage operation is answered with.
pub open spec fn status_of_class(class: StorageErrorClass) -> NfsStatus {
    match class {
        StorageErrorClass::NeedsAuth => NfsStatus::Acces,
        StorageErrorClass::NotFound => NfsStatus::NoEnt,
        _ => NfsStatus::Io,
    }
}

/// NFS status for a classified storage failure.
pub fn map_operation_error(class: StorageErrorClass) -> (status: NfsStatus)
    ensures
        status == status_of_class(class),
{
    match class {
        StorageErrorClass::NeedsAuth => NfsStatus::Acces,
        StorageErrorClass::NotFound => NfsStatus::NoEnt,
        _ => NfsStatus::Io,
    }
}

/// What every mutation has to pass: a read-only mount refuses it as such,
/// and a mount that is shutting down refuses it as an I/O error.
pub fn ensure_writable(read_only: bool, accepting_writes: bool) -> (gate: Result<(), NfsStatus>)
    ensures
        gate == (if read_only {
            Err::<(), NfsStatus>(NfsStatus::RoFs)
        } else if !accepting_writes {
            Err(NfsStatus::Io)
        } else {
            Ok(())
        }),
{
    if read_only {
        Err(NfsStatus::RoFs)
    } else if !accepting_writes {
        Err(NfsStatus::Io)
    } else {
        Ok(())
    }
}

/// A change that needs a condition is refused where the store does not honour
/// it: without the condition it could destroy what somebody else has written.
pub fn ensure_supported(supported: bool) -> (gate: Result<(), NfsStatus>)
    ensures
        gate == (if supported {
            Ok::<(), NfsStatus>(())
        } else {
            Err(NfsStatus::NotSupp)
        }),
{
    if supported {
        Ok(())
    } else {
        Err(NfsStatus::NotSupp)
    }
}

/// A code says what it says: a denial is a denial, an absence an absence, and
/// everything else, no code included, is an I/O error.
pub proof fn a_code_is_answered_as_what_it_says(code: Seq<char>)
    ensures
        status_of_code(None) == NfsStatus::Io,
        status_of_code(Some(code)) == NfsStatus::Acces <==> code == "AccessDenied"@ || code == "AllAccessDisabled"@ || code
            == "InvalidAccessKeyId"@ || code == "SignatureDoesNotMatch"@,
        status_of_code(Some(code)) == NfsStatus::NoEnt <==> code == "NoSuchKey"@ || code == "NoSuchBucket"@ || code == "NotFound"@,
        status_of_code(Some(code)) == NfsStatus::Acces || status_of_code(Some(code)) == NfsStatus::NoEnt || status_of_code(Some(code))
            == NfsStatus::Io,
{
    reveal_strlit("AccessDenied");
    reveal_strlit("AllAccessDisabled");
    reveal_strlit("InvalidAccessKeyId");
    reveal_strlit("SignatureDoesNotMatch");
    reveal_strlit("NoSuchKey");
    reveal_strlit("NoSuchBucket");
    reveal_strlit("NotFound");
    assert("AccessDenied"@[0] == 'A');
    assert("AllAccessDisabled"@[0] == 'A');
    assert("InvalidAccessKeyId"@[0] == 'I');
    assert("SignatureDoesNotMatch"@[0] == 'S');
    assert("NoSuchKey"@[0] == 'N');
    assert("NoSuchBucket"@[0] == 'N');
    assert("NotFound"@[0] == 'N');
}

/// Refused credentials and absent objects are answered as themselves;
/// everything else is an I/O error.
pub proof fn a_failure_is_answered_by_its_class(class: StorageErrorClass)
    ensures
        status_of_class(class) == NfsStatus::Acces <==> class == StorageErrorClass::NeedsAuth,
        status_of_class(class) == NfsStatus::NoEnt <==> class == StorageErrorClass::NotFound,
        class == StorageErrorClass::Transient || class == StorageErrorClass::OutcomeUnknown || class == StorageErrorClass::Permanent
            ==> status_of_class(class) == NfsStatus::Io,
{
}

/// A missing bucket is not an absent object.
pub proof fn only_an_absent_object_counts_as_absent(code: &str, absent: bool)
    requires
        call_ensures(head_error_means_absent, (Some(code),), absent),
    ensures
        absent <==> code@ == "NoSuchKey"@ || code@ == "NotFound"@,
        code@ == "NoSuchBucket"@ ==> !absent,
        absent ==> status_of_code(Some(code@)) == NfsStatus::NoEnt,
{
    reveal_strlit("NoSuchKey");
    reveal_strlit("NoSuchBucket");
    reveal_strlit("NotFound");
    a_code_is_answered_as_what_it_says(code@);
    if code@ == "NoSuchBucket"@ {
        assert("NoSuchKey"@.len() == 9);
        assert("NotFound"@.len() == 8);
        assert("NoSuchBucket"@.len() == 12);
    }
}

/// A mount takes a change exactly where it may be written to and is not
/// shutting down; a read-only one says so first.
pub proof fn a_change_needs_a_writable_mount(read_only: bool, accepting_writes: bool, gate: Result<(), NfsStatus>)
    requires
        call_ensures(ensure_writable, (read_only, accepting_writes), gate),
    ensures
        gate is Ok <==> !read_only && accepting_writes,
        read_only ==> gate == Err::<(), NfsStatus>(NfsStatus::RoFs),
        !read_only && !accepting_writes ==> gate == Err::<(), NfsStatus>(NfsStatus::Io),
{
}

/// A condition that the store does not honour refuses the change.
pub proof fn a_change_needs_its_condition(supported: bool, gate: Result<(), NfsStatus>)
    requires
        call_ensures(ensure_supported, (supported,), gate),
    ensures
        gate is Ok <==> supported,
        gate is Err ==> gate->Err_0 == NfsStatus::NotSupp,
{
}

} // verus!
