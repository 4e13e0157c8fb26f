//! Hashing and verifying passwords with Argon2.

use argon2::password_hash::rand_core::OsRng;
use argon2::password_hash::{PasswordHash, PasswordHasher, PasswordVerifier, Salt, SaltString};
use argon2::Argon2;
use vstd::prelude::*;
use vstd::string::*;
use vstd::utf8::*;

verus! {

/// Whether a character is a digit of the B64 encoding.
pub open spec fn is_b64_digit(c: char) -> bool {
    'A' <= c <= 'Z' || 'a' <= c <= 'z' || '0' <= c <= '9' || c == '+' || c == '/'
}

/// Whether a text is the B64 encoding of sixteen bytes, as salts are written.
/// The last of its 22 digits carries two bits.
pub open spec fn is_salt(salt: Seq<char>) -> bool {
    &&& salt.len() == 22
    &&& forall|i: int| 0 <= i < salt.len() ==> is_b64_digit(#[trigger] salt[i])
    &&& salt[21] == 'A' || salt[21] == 'Q' || salt[21] == 'g' || salt[21] == 'w'
}

/// Calls `SaltString::generate` with the random numbers of the operating
/// system: the B64 encoding of sixteen bytes, of which nothing is claimed.
#[verifier::external_body]
fn random_salt() -> (salt: String)
    ensures
        is_salt(salt@),
{
    SaltString::generate(&mut OsRng).as_str().to_string()
}

/// The texts of an outcome.
pub open spec fn view_outcome(outcome: Result<String, String>) -> Result<Seq<char>, Seq<char>> {
    match outcome {
        Ok(text) => Ok(text@),
        Err(text) => Err(text@),
    }
}

/// What Argon2 makes of a password and a salt: the hash in PHC format, or the
/// text of the error.
pub uninterp spec fn argon2_hash(
    password: Seq<u8>,
    salt: Seq<char>,
) -> Result<Seq<char>, Seq<char>>;

/// What Argon2 says of a password and a hash in PHC format: whether they
/// match, or nothing if the hash cannot be read.
pub uninterp spec fn argon2_verification(password: Seq<u8>, hash: Seq<char>) -> Option<bool>;

/// What every hash starts with: the algorithm, its version and its parameters.
pub const HASH_START: &'static str = "$argon2id$v=19$m=19456,t=2,p=1$";

/// How many digits the B64 encoding of a 32-byte digest has.
pub const DIGEST_DIGITS: usize = 43;

/// Whether a text has the form of a hash with this salt: behind the algorithm
/// and its parameters the salt, a dollar sign, and the digest, both in B64.
pub open spec fn is_hash_with(hash: Seq<char>, salt: Seq<char>) -> bool {
    let start = HASH_START@ + salt + "$"@;
    &&& forall|i: int| 0 <= i < salt.len() ==> is_b64_digit(#[trigger] salt[i])
    &&& start.is_prefix_of(hash)
    &&& hash.len() == start.len() + DIGEST_DIGITS
    &&& forall|i: int| start.len() <= i < hash.len() ==> is_b64_digit(#[trigger] hash[i])
}

/// Whether a password and a salt give this hash.
pub open spec fn hashes_to(password: Seq<u8>, salt: Seq<char>, hash: Seq<char>) -> bool {
    argon2_hash(password, salt) is Ok && argon2_hash(password, salt)->Ok_0 == hash
}

/// Whether a password verifies against a hash exactly if, with this salt, it
/// gives that hash.
pub open spec fn verifies_by_hashing(hash: Seq<char>, salt: Seq<char>) -> bool {
    forall|password: Seq<u8>| #[trigger]
        argon2_verification(password, hash) == Some(hashes_to(password, salt, hash))
}

/// Calls `Salt::from_b64` and `hash_password` of the default `Argon2`, and
/// writes out the hash or the error. What comes out depends on the password
/// and the salt alone. Hashing succeeds with a salt of sixteen bytes and a
/// password of less than four gibibytes. The hash is that of Argon2id with its
/// default parameters, and holds the salt; verifying a password against it
/// means to hash the password with that salt and to compare.
#[verifier::external_body]
fn argon2_hash_password(password: &[u8], salt: &str) -> (outcome: Result<String, String>)
    ensures
        view_outcome(outcome) == argon2_hash(password@, salt@),
        is_salt(salt@) && password@.len() <= u32::MAX ==> outcome is Ok,
        outcome matches Ok(hash) ==> is_hash_with(hash@, salt@),
        outcome matches Ok(hash) ==> verifies_by_hashing(hash@, salt@),
{
    Salt::from_b64(salt)
        .and_then(|salt| Argon2::default().hash_password(password, salt))
        .map(|hash| hash.to_string())
        .map_err(|error| error.to_string())
}

/// Whether the parameter that gives the number of lanes is named at a place in
/// the bytes of a hash.
pub open spec fn names_lanes(bytes: Seq<u8>, at: int) -> bool {
    &&& 0 <= at
    &&& at + 3 <= bytes.len()
    &&& bytes[at] == '$' as u8 || bytes[at] == ',' as u8
    &&& bytes[at + 1] == 'p' as u8
    &&& bytes[at + 2] == '=' as u8
}

/// How many digits only a number of lanes has that is beyond every limit.
pub const LANE_DIGITS: usize = 9;

/// Whether a number of at least that many digits stands at a place.
pub open spec fn is_long_number(bytes: Seq<u8>, at: int) -> bool {
    &&& at + LANE_DIGITS <= bytes.len()
    &&& forall|i: int| at <= i < at + LANE_DIGITS ==> '0' as u8 <= #[trigger] bytes[i] <= '9' as u8
}

/// Whether the bytes of a hash ask for a number of lanes with nine digits or
/// more. Where the number is given more than once, the last one counts.
pub open spec fn asks_for_too_many_lanes(bytes: Seq<u8>) -> bool {
    exists|at: int| #[trigger]
        names_lanes(bytes, at) && is_long_number(bytes, at + 3) && forall|later: int|
            at < later ==> !names_lanes(bytes, later)
}

/// Whether a number of at least nine digits stands at a place.
fn long_number_at(bytes: &[u8], at: usize) -> (yes: bool)
    requires
        at <= bytes@.len(),
    ensures
        yes == is_long_number(bytes@, at as int),
{
    if bytes.len() - at < LANE_DIGITS {
        return false;
    }
    let end: usize = at + LANE_DIGITS;
    let mut i: usize = at;
    while i < end
        invariant
            at <= i <= end == at + LANE_DIGITS <= bytes@.len(),
            forall|k: int| at <= k < i ==> '0' as u8 <= #[trigger] bytes@[k] <= '9' as u8,
        decreases end - i,
    {
        if bytes[i] < '0' as u8 || bytes[i] > '9' as u8 {
            return false;
        }
        i += 1;
    }
    true
}

/// Whether a hash asks for a number of lanes that is beyond every limit.
pub fn too_many_lanes(hash: &str) -> (yes: bool)
    ensures
        yes == asks_for_too_many_lanes(encode_utf8(hash@)),
{
    let bytes = hash.as_bytes();
    if bytes.len() < 3 {
        return false;
    }
    let mut at: usize = bytes.len() - 2;
    while at > 0
        invariant
            bytes@ == encode_utf8(hash@),
            at + 2 <= bytes@.len(),
            forall|later: int| at <= later ==> !names_lanes(bytes@, later),
        decreases at,
    {
        at -= 1;
        if (bytes[at] == '$' as u8 || bytes[at] == ',' as u8) && bytes[at + 1] == 'p' as u8
            && bytes[at + 2] == '=' as u8 {
            assert(names_lanes(bytes@, at as int));
            return long_number_at(bytes, at + 3);
        }
    }
    false
}

/// Calls `PasswordHash::new` and `verify_password` of the default `Argon2`:
/// nothing if the hash cannot be read, and else whether the password verifies
/// against it, which depends on the two alone. A number of lanes of nine digits
/// or more is kept away from it: the crate multiplies the number before it
/// tests it. The memory that a hash asks for is allocated; a machine that lacks
/// it is not spoken of.
#[verifier::external_body]
fn argon2_verify_password(password: &[u8], hash: &str) -> (outcome: Option<bool>)
    requires
        !asks_for_too_many_lanes(encode_utf8(hash@)),
    ensures
        outcome == argon2_verification(password@, hash@),
{
    let parsed = PasswordHash::new(hash).ok()?;
    Some(Argon2::default().verify_password(password, &parsed).is_ok())
}

/// How the outcome of hashing is reported.
pub open spec fn reported(outcome: Result<Seq<char>, Seq<char>>) -> Result<
    Seq<char>,
    Seq<char>,
> {
    match outcome {
        Ok(hash) => Ok(hash),
        Err(error) => Err("Password hashing failed: "@ + error),
    }
}

/// Reports the outcome of hashing a password.
pub fn report_hashing(outcome: Result<String, String>) -> (report: Result<String, String>)
    ensures
        view_outcome(report) == reported(view_outcome(outcome)),
{
    match outcome {
        Ok(hash) => Ok(hash),
        Err(error) => Err("Password hashing failed: ".to_owned().concat(error.as_str())),
    }
}

/// Whether a password matches a hash: Argon2 says so, and the hash does not ask
/// for too many lanes.
pub open spec fn is_match(password: Seq<u8>, hash: Seq<char>) -> bool {
    &&& !asks_for_too_many_lanes(encode_utf8(hash))
    &&& argon2_verification(password, hash) == Some(true)
}

/// A hash that was made here asks for one lane.
proof fn lemma_hash_lanes(hash: Seq<char>, salt: Seq<char>)
    requires
        is_hash_with(hash, salt),
    ensures
        !asks_for_too_many_lanes(encode_utf8(hash)),
{
    reveal_strlit("$argon2id$v=19$m=19456,t=2,p=1$");
    reveal_strlit("$");
    let from = HASH_START@.len() as int;
    let start = HASH_START@ + salt + "$"@;
    assert forall|i: int| 0 <= i < hash.len() implies if i < from {
        #[trigger] hash[i] == HASH_START@[i]
    } else {
        is_b64_digit(hash[i]) || hash[i] == '$'
    } by {
        if i < start.len() {
            assert(hash[i] == start[i]);
            if i >= from && i < from + salt.len() {
                assert(is_b64_digit(salt[i - from]));
            }
        }
    }
    assert forall|i: int| 0 <= i < hash.len() implies '\0' <= #[trigger] hash[i] <= '\u{7f}' by {
        if i < from {
            assert('\0' <= HASH_START@[i] <= '\u{7f}');
        }
    }
    is_ascii_chars_encode_utf8(hash);
    let bytes = encode_utf8(hash);
    assert forall|at: int| #[trigger] names_lanes(bytes, at) implies !is_long_number(
        bytes,
        at + 3,
    ) by {
        assert(bytes[at + 1] == hash[at + 1] as u8);
        assert(bytes[at + 2] == hash[at + 2] as u8);
        assert(hash[at + 2] == '=');
        assert(at + 2 < from);
        assert(at == 26);
        assert(hash[30] == '$');
        assert(bytes[30] == '$' as u8);
    }
}

/// Hashes a password with a given salt, in B64.
pub fn hash_password_with_salt(password: &str, salt: &str) -> (report: Result<String, String>)
    ensures
        view_outcome(report) == reported(argon2_hash(encode_utf8(password@), salt@)),
        is_salt(salt@) && encode_utf8(password@).len() <= u32::MAX ==> report is Ok,
        report matches Ok(hash) ==> is_hash_with(hash@, salt@),
        report matches Ok(hash) ==> verifies_by_hashing(hash@, salt@),
        report matches Ok(hash) ==> is_match(encode_utf8(password@), hash@),
{
    let report = report_hashing(argon2_hash_password(password.as_bytes(), salt));
    proof {
        if report is Ok {
            lemma_hash_lanes(report->Ok_0@, salt@);
        }
    }
    report
}

/// Hashes a password with a fresh random salt.
pub fn hash_password(password: &str) -> (report: Result<String, String>)
    ensures
        exists|salt: Seq<char>| #[trigger]
            is_salt(salt) && view_outcome(report) == reported(
                argon2_hash(encode_utf8(password@), salt),
            ) && (report matches Ok(hash) ==> is_hash_with(hash@, salt) && verifies_by_hashing(
                hash@,
                salt,
            )),
        encode_utf8(password@).len() <= u32::MAX ==> report is Ok,
        report matches Ok(hash) ==> is_match(encode_utf8(password@), hash@),
{
    let salt = random_salt();
    hash_password_with_salt(password, salt.as_str())
}

/// Whether a verification speaks for the password: a hash that cannot be read
/// speaks for none.
pub fn is_accepted(verification: Option<bool>) -> (accepted: bool)
    ensures
        accepted == (verification == Some(true)),
{
    match verification {
        Some(matches) => matches,
        None => false,
    }
}

/// Whether a password matches a hash. A hash that asks for too many lanes
/// matches none.
pub fn verify_password(password: &str, hash: &str) -> (accepted: bool)
    ensures
        accepted == is_match(encode_utf8(password@), hash@),
{
    if too_many_lanes(hash) {
        return false;
    }
    is_accepted(argon2_verify_password(password.as_bytes(), hash))
}

/// A hash says that it is one of Argon2id.
pub proof fn law_hash_names_its_algorithm(hash: Seq<char>, salt: Seq<char>)
    requires
        is_hash_with(hash, salt),
    ensures
        "$argon2id$"@.is_prefix_of(hash),
{
    reveal_strlit("$argon2id$");
    reveal_strlit("$argon2id$v=19$m=19456,t=2,p=1$");
    let start = HASH_START@ + salt + "$"@;
    assert forall|i: int| 0 <= i < "$argon2id$"@.len() implies "$argon2id$"@[i]
        == #[trigger] hash[i] by {
        assert(start[i] == HASH_START@[i]);
        assert(hash[i] == start[i]);
    }
}

/// Hashes with different salts differ, whatever the passwords.
pub proof fn law_different_salts_give_different_hashes(
    hash: Seq<char>,
    salt: Seq<char>,
    other_hash: Seq<char>,
    other_salt: Seq<char>,
)
    requires
        is_salt(salt),
        is_salt(other_salt),
        salt != other_salt,
        is_hash_with(hash, salt),
        is_hash_with(other_hash, other_salt),
    ensures
        hash != other_hash,
{
    if hash == other_hash {
        let from = HASH_START@.len() as int;
        let start = HASH_START@ + salt + "$"@;
        let other_start = HASH_START@ + other_salt + "$"@;
        assert forall|i: int| 0 <= i < salt.len() implies salt[i] == other_salt[i] by {
            assert(hash[from + i] == start[from + i]);
            assert(hash[from + i] == other_start[from + i]);
        }
        assert(salt =~= other_salt);
    }
}

/// The password that was hashed matches the hash, and no other does, unless with
/// the same salt it gives the very same hash.
pub proof fn law_other_passwords_are_refused(
    password: Seq<u8>,
    other: Seq<u8>,
    salt: Seq<char>,
    hash: Seq<char>,
)
    requires
        hashes_to(password, salt, hash),
        is_hash_with(hash, salt),
        verifies_by_hashing(hash, salt),
    ensures
        is_match(password, hash),
        is_match(other, hash) <==> argon2_hash(other, salt) == argon2_hash(password, salt),
{
    lemma_hash_lanes(hash, salt);
}

/// The outcome of hashing is reported as it is, an error with a word on what it
/// is an error of.
pub proof fn law_how_hashing_is_reported(
    outcome: Result<Seq<char>, Seq<char>>,
    report: Result<String, String>,
)
    ensures
        view_outcome(report) is Ok <==> report is Ok,
        report is Ok ==> view_outcome(report)->Ok_0 == report->Ok_0@,
        report is Err ==> view_outcome(report)->Err_0 == report->Err_0@,
        outcome is Ok <==> reported(outcome) is Ok,
        outcome is Ok ==> reported(outcome)->Ok_0 == outcome->Ok_0,
        outcome is Err ==> reported(outcome)->Err_0 == "Password hashing failed: "@
            + outcome->Err_0,
{
}

/// A number of lanes is too long exactly if it has nine digits or more, and only
/// the last one counts.
pub proof fn law_which_lane_numbers_are_too_long(
    head: Seq<u8>,
    mark: u8,
    number: Seq<u8>,
    tail: Seq<u8>,
)
    requires
        mark == '$' as u8 || mark == ',' as u8,
        forall|i: int| 0 <= i < number.len() ==> 48 <= #[trigger] number[i] <= 57,
        tail.len() > 0 ==> !(48 <= tail[0] <= 57),
        !tail.contains('=' as u8),
    ensures
        asks_for_too_many_lanes(head + seq![mark, 'p' as u8, '=' as u8] + number + tail)
            <==> number.len() >= 9,
{
    let name = seq![mark, 'p' as u8, '=' as u8];
    let bytes = head + name + number + tail;
    let at = head.len() as int;
    assert(bytes[at] == mark && bytes[at + 1] == 'p' as u8 && bytes[at + 2] == '=' as u8);
    assert(names_lanes(bytes, at));
    assert forall|later: int| at < later implies !names_lanes(bytes, later) by {
        if names_lanes(bytes, later) {
            let i = later + 2 - at - 3;
            if i < number.len() {
                assert(bytes[later + 2] == number[i]);
            } else {
                assert(bytes[later + 2] == tail[i - number.len()]);
                assert(tail.contains('=' as u8));
            }
        }
    }
    if number.len() >= 9 {
        assert forall|i: int| at + 3 <= i < at + 3 + LANE_DIGITS implies '0' as u8
            <= #[trigger] bytes[i] <= '9' as u8 by {
            assert(bytes[i] == number[i - at - 3]);
        }
        assert(is_long_number(bytes, at + 3));
    } else {
        assert(!is_long_number(bytes, at + 3)) by {
            if tail.len() > 0 {
                assert(bytes[at + 3 + number.len()] == tail[0]);
            }
        }
        if asks_for_too_many_lanes(bytes) {
            let other = choose|other: int| #[trigger]
                names_lanes(bytes, other) && is_long_number(bytes, other + 3) && forall|later: int|
                    other < later ==> !names_lanes(bytes, later);
            assert(other == at);
        }
    }
}

/// A hash without an equals sign names no lanes, and a password matches it
/// exactly if Argon2 says so.
pub proof fn law_match_is_up_to_argon2(password: Seq<u8>, hash: Seq<char>)
    ensures
        !encode_utf8(hash).contains('=' as u8) ==> !asks_for_too_many_lanes(encode_utf8(hash)),
        is_match(password, hash) ==> argon2_verification(password, hash) == Some(true),
        !asks_for_too_many_lanes(encode_utf8(hash)) ==> (is_match(password, hash)
            <==> argon2_verification(password, hash) == Some(true)),
{
    let bytes = encode_utf8(hash);
    if !bytes.contains('=' as u8) {
        assert forall|at: int| !(#[trigger] names_lanes(bytes, at)) by {
            if names_lanes(bytes, at) {
                assert(bytes.contains(bytes[at + 2]));
            }
        }
    }
}

} // verus!
