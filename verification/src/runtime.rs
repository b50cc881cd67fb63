//! Where a session keeps its files. Paths are the bytes of Unix paths.
use vstd::prelude::*;

use crate::text;
use crate::text::{bytes_copy, bytes_range, decimal_text, hex_text};

verus! {

/// Longest accepted session ID, in bytes.
pub const MAX_ID: usize = 1024;

/// The SHA-256 digest of a byte string.
pub uninterp spec fn sha256_of(data: Seq<u8>) -> Seq<u8>;

/// Calls `sha2::Sha256::digest`: the digest is determined by the data and has
/// 32 bytes.
#[verifier::external_body]
pub(crate) fn sha256(data: &[u8]) -> (r: Vec<u8>)
    ensures
        r@ == sha256_of(data@),
        r@.len() == 32,
{
    <sha2::Sha256 as sha2::Digest>::digest(data).to_vec()
}

/// What is wrong with a session ID.
#[derive(Clone, Copy, Debug, PartialEq, Eq, Structural)]
pub enum IdError {
    Empty,
    TooLong,
}

impl IdError {
    pub open spec fn text(self) -> Seq<char> {
        match self {
            IdError::Empty => "session ID may not be empty"@,
            IdError::TooLong => "session ID is too long"@,
        }
    }

    pub fn message(&self) -> (r: String)
        ensures
            r@ == self.text(),
    {
        match self {
            IdError::Empty => "session ID may not be empty".to_owned(),
            IdError::TooLong => "session ID is too long".to_owned(),
        }
    }
}

/// The name of a directory for an ID with the given digest: the first sixteen
/// bytes in hexadecimal notation.
pub open spec fn name_of_digest(digest: Seq<u8>) -> Seq<char> {
    text::hex(digest.take(16))
}

/// Whether `s` can name a session's directory: 32 hexadecimal digits.
pub open spec fn is_name(s: Seq<char>) -> bool {
    s.len() == 32 && forall|i: int| 0 <= i < s.len() ==> text::is_hex_digit(#[trigger] s[i])
}

/// The name of a directory for a digest.
pub fn digest_name(digest: &[u8]) -> (r: String)
    requires
        digest@.len() >= 16,
    ensures
        r@ == name_of_digest(digest@),
        is_name(r@),
{
    let head = bytes_range(digest, 0, 16);
    assert(head@ =~= digest@.take(16));
    proof {
        text::hex_length(head@);
    }
    hex_text(head.as_slice())
}

/// Names the directory of a session. IDs that differ get different names as far
/// as their digests differ.
pub fn session_name(id: &str) -> (r: Result<String, IdError>)
    ensures
        match r {
            Ok(name) => {
                &&& 0 < vstd::utf8::encode_utf8(id@).len() <= MAX_ID
                &&& name@ == name_of_digest(sha256_of(vstd::utf8::encode_utf8(id@)))
                &&& is_name(name@)
                &&& vstd::utf8::encode_utf8(name@).len() == 32
                &&& vstd::utf8::encode_utf8(name@)[0] != 47
            },
            Err(IdError::Empty) => vstd::utf8::encode_utf8(id@).len() == 0,
            Err(IdError::TooLong) => vstd::utf8::encode_utf8(id@).len() > MAX_ID,
        },
{
    let bytes = id.as_bytes();
    if bytes.len() == 0 {
        return Err(IdError::Empty);
    }
    if bytes.len() > MAX_ID {
        return Err(IdError::TooLong);
    }
    let digest = sha256(bytes);
    let name = digest_name(digest.as_slice());
    proof {
        assert forall|i: int| 0 <= i < name@.len() implies '\0' <= #[trigger] name@[i] && name@[i]
            <= '\u{7f}' by {
            assert(text::is_hex_digit(name@[i]));
        }
        assert(vstd::utf8::is_ascii_chars(name@));
        vstd::utf8::is_ascii_chars_encode_utf8(name@);
        assert(text::is_hex_digit(name@[0]));
        assert(vstd::utf8::encode_utf8(name@)[0] == name@[0] as u8);
    }
    Ok(name)
}

/// A path inside a directory, for a name without a leading slash.
pub open spec fn path_inside(directory: Seq<u8>, name: Seq<u8>) -> Seq<u8> {
    if directory.len() == 0 || directory.last() == 47 {
        directory + name
    } else {
        directory.push(47) + name
    }
}

/// A path inside a directory.
pub fn join_path(directory: &[u8], name: &[u8]) -> (r: Vec<u8>)
    requires
        name@.len() > 0,
        name@[0] != 47,
    ensures
        r@ == path_inside(directory@, name@),
{
    let mut path = bytes_copy(directory);
    if directory.len() > 0 && directory[directory.len() - 1] != 47 {
        path.push(47);
    }
    let ghost before = path@;
    path.extend_from_slice(name);
    assert(path@ =~= before + name@);
    path
}

fn str_bytes(s: &str) -> (r: Vec<u8>)
    ensures
        r@ == vstd::utf8::encode_utf8(s@),
{
    bytes_copy(s.as_bytes())
}

/// The bytes of `pipekeep`.
pub open spec fn program_name() -> Seq<u8> {
    seq![112, 105, 112, 101, 107, 101, 101, 112]
}

/// The bytes of `broker.sock`.
pub open spec fn socket_name() -> Seq<u8> {
    seq![98, 114, 111, 107, 101, 114, 46, 115, 111, 99, 107]
}

/// The bytes of `/tmp`.
pub open spec fn temporary_directory() -> Seq<u8> {
    seq![47, 116, 109, 112]
}

/// The directory that holds all sessions: the one that was asked for, else one
/// in the user's runtime directory, else one of the user's own in `/tmp`.
pub open spec fn root_of(asked: Option<Seq<u8>>, user: Option<Seq<u8>>, uid: u32) -> Seq<u8> {
    match asked {
        Some(directory) => directory,
        None => match user {
            Some(directory) => path_inside(directory, program_name()),
            None => path_inside(
                temporary_directory(),
                program_name().push(45) + vstd::utf8::encode_utf8(text::decimal(uid as nat)),
            ),
        },
    }
}

/// Chooses the directory that holds all sessions.
pub fn root_dir(asked: Option<Vec<u8>>, user: Option<Vec<u8>>, uid: u32) -> (r: Vec<u8>)
    ensures
        r@ == root_of(
            match asked {
                Some(directory) => Some(directory@),
                None => None,
            },
            match user {
                Some(directory) => Some(directory@),
                None => None,
            },
            uid,
        ),
{
    let mut name: Vec<u8> = vec![112, 105, 112, 101, 107, 101, 101, 112];
    assert(name@ =~= program_name());
    match asked {
        Some(directory) => directory,
        None => match user {
            Some(directory) => join_path(directory.as_slice(), name.as_slice()),
            None => {
                name.push(45);
                let number = str_bytes(decimal_text(uid as u64).as_str());
                let ghost before = name@;
                name.extend_from_slice(number.as_slice());
                assert(name@ =~= program_name().push(45) + number@);
                let temporary: Vec<u8> = vec![47, 116, 109, 112];
                assert(temporary@ =~= temporary_directory());
                join_path(temporary.as_slice(), name.as_slice())
            },
        },
    }
}

/// The directory of a session, in the directory that holds all sessions.
pub fn session_dir(root: &[u8], id: &str) -> (r: Result<Vec<u8>, IdError>)
    ensures
        match r {
            Ok(directory) => {
                &&& 0 < vstd::utf8::encode_utf8(id@).len() <= MAX_ID
                &&& directory@ == path_inside(
                    root@,
                    vstd::utf8::encode_utf8(
                        name_of_digest(sha256_of(vstd::utf8::encode_utf8(id@))),
                    ),
                )
            },
            Err(IdError::Empty) => vstd::utf8::encode_utf8(id@).len() == 0,
            Err(IdError::TooLong) => vstd::utf8::encode_utf8(id@).len() > MAX_ID,
        },
{
    match session_name(id) {
        Ok(name) => Ok(join_path(root, name.as_str().as_bytes())),
        Err(error) => Err(error),
    }
}

/// The socket of a session's broker.
pub fn socket_path(session_dir: &[u8]) -> (r: Vec<u8>)
    ensures
        r@ == path_inside(session_dir@, socket_name()),
{
    let name: Vec<u8> = vec![98, 114, 111, 107, 101, 114, 46, 115, 111, 99, 107];
    assert(name@ =~= socket_name());
    join_path(session_dir, name.as_slice())
}

/// A path inside a directory begins with the directory and ends with the name,
/// with exactly one slash between them; in no directory it is the name.
pub proof fn paths_have_one_slash_between(directory: &[u8], name: &[u8], r: Vec<u8>)
    requires
        name@.len() > 0,
        name@[0] != 47,
        call_ensures(join_path, (directory, name), r),
    ensures
        r@.take(directory@.len() as int) == directory@,
        r@.skip(r@.len() - name@.len()) == name@,
        directory@.len() == 0 ==> r@ == name@,
        directory@.len() > 0 ==> r@[r@.len() - name@.len() - 1] == 47,
        directory@.len() > 0 && directory@.last() == 47 ==> r@.len() == directory@.len()
            + name@.len(),
        directory@.len() > 0 && directory@.last() != 47 ==> r@.len() == directory@.len() + 1
            + name@.len(),
{
    assert(r@.take(directory@.len() as int) =~= directory@);
    assert(r@.skip(r@.len() - name@.len()) =~= name@);
    if directory@.len() == 0 {
        assert(r@ =~= name@);
    }
}

/// The directory that was asked for is taken as it is. Without one, sessions are
/// kept in `pipekeep` in the user's runtime directory.
pub proof fn asked_directories_come_first(
    asked: Option<Vec<u8>>,
    user: Option<Vec<u8>>,
    uid: u32,
    r: Vec<u8>,
)
    requires
        call_ensures(root_dir, (asked, user, uid), r),
    ensures
        asked matches Some(directory) ==> r@ == directory@,
        asked is None ==> (user matches Some(directory) ==> {
            &&& r@.take(directory@.len() as int) == directory@
            &&& r@.skip(r@.len() - 8) == seq![112u8, 105, 112, 101, 107, 101, 101, 112]
            &&& directory@.len() > 0 ==> r@[r@.len() - 9] == 47
            &&& r@.len() <= directory@.len() + 9
        }),
{
    if asked is None {
        if let Some(directory) = user {
            assert(r@.take(directory@.len() as int) =~= directory@);
            assert(r@.skip(r@.len() - 8) =~= seq![112u8, 105, 112, 101, 107, 101, 101, 112]);
        }
    }
}

proof fn numbers_in_paths(uid: u32)
    ensures
        ({
            let written = text::decimal(uid as nat);
            let bytes = vstd::utf8::encode_utf8(written);
            &&& bytes.len() == written.len()
            &&& forall|i: int| 0 <= i < bytes.len() ==> #[trigger] bytes[i] == written[i] as u8
        }),
{
    let written = text::decimal(uid as nat);
    text::decimal_round_trip(uid as nat);
    assert forall|i: int| 0 <= i < written.len() implies '\0' <= #[trigger] written[i] && written[i]
        <= '\u{7f}' by {
        assert(text::is_digit(written[i]));
    }
    assert(vstd::utf8::is_ascii_chars(written));
    vstd::utf8::is_ascii_chars_encode_utf8(written);
}

/// Without any directory sessions are kept under `/tmp/pipekeep-`, and no two users
/// share the directory.
pub proof fn users_do_not_share_directories(one: u32, other: u32, r: Vec<u8>, s: Vec<u8>)
    requires
        call_ensures(root_dir, (None::<Vec<u8>>, None::<Vec<u8>>, one), r),
        call_ensures(root_dir, (None::<Vec<u8>>, None::<Vec<u8>>, other), s),
    ensures
        r@.len() > 14,
        r@.take(14) == seq![47u8, 116, 109, 112, 47, 112, 105, 112, 101, 107, 101, 101, 112, 45],
        r@.skip(14) == vstd::utf8::encode_utf8(text::decimal(one as nat)),
        r@ == s@ ==> one == other,
{
    numbers_in_paths(one);
    numbers_in_paths(other);
    text::decimal_round_trip(one as nat);
    text::decimal_round_trip(other as nat);
    assert(r@.take(14) =~= seq![
        47u8,
        116,
        109,
        112,
        47,
        112,
        105,
        112,
        101,
        107,
        101,
        101,
        112,
        45,
    ]);
    assert(r@.skip(14) =~= vstd::utf8::encode_utf8(text::decimal(one as nat)));
    assert(s@.skip(14) =~= vstd::utf8::encode_utf8(text::decimal(other as nat)));
    if r@ == s@ {
        let a = text::decimal(one as nat);
        let b = text::decimal(other as nat);
        let bytes = vstd::utf8::encode_utf8(a);
        assert forall|i: int| 0 <= i < a.len() implies #[trigger] a[i] == b[i] by {
            assert(bytes[i] == a[i] as u8);
            assert(vstd::utf8::encode_utf8(b)[i] == b[i] as u8);
            assert(text::is_digit(a[i]));
            assert(text::is_digit(b[i]));
        }
        assert(a =~= b);
    }
}

/// Every ID of 1 to 1024 bytes names a session, and no other does. Names have 32
/// hexadecimal digits, and two IDs share a name exactly if their digests begin with
/// the same sixteen bytes.
pub proof fn names_follow_digests(
    one: &str,
    other: &str,
    r: Result<String, IdError>,
    s: Result<String, IdError>,
)
    requires
        call_ensures(session_name, (one,), r),
        call_ensures(session_name, (other,), s),
    ensures
        r is Ok <==> 1 <= vstd::utf8::encode_utf8(one@).len() <= 1024,
        r is Err ==> (r->Err_0 is Empty <==> vstd::utf8::encode_utf8(one@).len() == 0),
        r matches Ok(name) ==> name@.len() == 32 && forall|i: int|
            0 <= i < name@.len() ==> ('0' <= #[trigger] name@[i] && name@[i] <= '9') || ('a'
                <= name@[i] && name@[i] <= 'f'),
        r is Ok && s is Ok ==> (r->Ok_0@ == s->Ok_0@ <==> sha256_of(
            vstd::utf8::encode_utf8(one@),
        ).take(16) == sha256_of(vstd::utf8::encode_utf8(other@)).take(16)),
{
    if let Ok(name) = r {
        assert forall|i: int| 0 <= i < name@.len() implies ('0' <= #[trigger] name@[i] && name@[i]
            <= '9') || ('a' <= name@[i] && name@[i] <= 'f') by {
            assert(text::is_hex_digit(name@[i]));
        }
        if let Ok(other_name) = s {
            if name@ == other_name@ {
                text::hexadecimal_notation_is_unique(
                    sha256_of(vstd::utf8::encode_utf8(one@)).take(16),
                    sha256_of(vstd::utf8::encode_utf8(other@)).take(16),
                );
            }
        }
    }
}

/// The directory of a session is its name in the directory that holds all sessions,
/// and its socket is `broker.sock` in it.
pub proof fn sessions_lie_in_the_root(
    root: &[u8],
    id: &str,
    name: Result<String, IdError>,
    directory: Result<Vec<u8>, IdError>,
)
    requires
        call_ensures(session_name, (id,), name),
        call_ensures(session_dir, (root, id), directory),
    ensures
        name is Ok <==> directory is Ok,
        name is Err ==> directory->Err_0 == name->Err_0,
        directory matches Ok(path) ==> {
            &&& path@.take(root@.len() as int) == root@
            &&& path@.skip(path@.len() - 32) == vstd::utf8::encode_utf8(name->Ok_0@)
            &&& root@.len() > 0 ==> path@[path@.len() - 33] == 47
        },
{
    if let Ok(path) = directory {
        assert(path@.take(root@.len() as int) =~= root@);
        assert(path@.skip(path@.len() - 32) =~= vstd::utf8::encode_utf8(name->Ok_0@));
    }
}

/// The socket of a session is `broker.sock` in its directory.
pub proof fn sockets_lie_in_their_session(directory: &[u8], r: Vec<u8>)
    requires
        call_ensures(socket_path, (directory,), r),
    ensures
        r@.take(directory@.len() as int) == directory@,
        r@.skip(r@.len() - 11) == seq![98u8, 114, 111, 107, 101, 114, 46, 115, 111, 99, 107],
        directory@.len() > 0 ==> r@[r@.len() - 12] == 47,
{
    assert(r@.take(directory@.len() as int) =~= directory@);
    assert(r@.skip(r@.len() - 11) =~= seq![98u8, 114, 111, 107, 101, 114, 46, 115, 111, 99, 107]);
}

/// An unusable ID says why.
pub proof fn unusable_names_say_why(error: IdError, r: String)
    requires
        call_ensures(IdError::message, (&error,), r),
    ensures
        error is Empty ==> r@ == "session ID may not be empty"@,
        error is TooLong ==> r@ == "session ID is too long"@,
{
}

/// The name for a digest is its first sixteen bytes in hexadecimal notation: two
/// digests have the same name exactly if they begin alike.
pub proof fn digests_are_named_by_their_beginning(one: &[u8], other: &[u8], r: String, s: String)
    requires
        one@.len() >= 16,
        other@.len() >= 16,
        call_ensures(digest_name, (one,), r),
        call_ensures(digest_name, (other,), s),
    ensures
        r@.len() == 32,
        r@ == s@ <==> one@.take(16) == other@.take(16),
{
    if r@ == s@ {
        text::hexadecimal_notation_is_unique(one@.take(16), other@.take(16));
    }
}

} // verus!
