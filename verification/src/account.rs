//! Account handling: name and password validity, password generation,
//! the rendering of new user records, and the checks against the
//! flat-file credential store.
//!
//! The store itself is a directory with one file per account; reading it
//! is left to the caller, which hands the file names and file contents in
//! as plain values.

use vstd::prelude::*;
use vstd::string::StringExecFns;
use vstd::utf8::encode_utf8;
use crate::bytes::{
    spec_dec, spec_find, spec_replace_all, u64_to_dec, replace_all, find_sub, bytes_eq,
    lemma_find_characterization,
};
use crate::response::ResponseCode;

verus! {

/// What `str::to_lowercase` returns: a function of the characters alone.
pub uninterp spec fn lower_of(s: Seq<char>) -> Seq<char>;

/// Relies on str::to_lowercase, for folding names before comparing them;
/// the result depends on the characters alone.
#[verifier::external_body]
fn to_lowercase_str(s: &str) -> (r: String)
    ensures
        r@ == lower_of(s@),
{
    s.to_lowercase()
}

/// What `pvpgn_hash_rs::get_hash_string` returns on success: the legacy
/// account hash of the password, a function of the password text alone.
pub uninterp spec fn pvpgn_hash_of(s: Seq<char>) -> Seq<char>;

/// Relies on pvpgn_hash_rs::get_hash_string: the legacy account hash,
/// rendered as forty hex digits, computed from the password text alone.
/// Its source fails exactly when the lower-cased password is empty or
/// longer than 1024 bytes, so a non-empty ASCII password of at most 1024
/// characters always hashes.
#[verifier::external_body]
fn hash_account_password(s: &str) -> (r: Option<String>)
    ensures
        match r {
            Some(h) => h@ == pvpgn_hash_of(s@) && h@.len() == 40,
            None => true,
        },
        (1 <= s@.len() <= 1024 && (forall|i: int|
            0 <= i < s@.len() ==> (s@[i] as u32) < 128)) ==> r is Some,
{
    match pvpgn_hash_rs::get_hash_string(s) {
        Ok(h) => Some(h),
        Err(_) => None,
    }
}

/// Relies on rand::random_range: a draw from the thread-local generator,
/// uniform over the given half-open range.
#[verifier::external_body]
fn random_below_100_000_000() -> (r: u32)
    ensures
        r < 100_000_000,
{
    rand::random_range(0u32..100_000_000u32)
}

/// A byte allowed in an account name: a letter, a digit, or one of
/// `[ ] - _ .`.
pub open spec fn username_byte_ok(b: u8) -> bool {
    (97 <= b && b <= 122) || (65 <= b && b <= 90) || (48 <= b && b <= 57) || b == 91 || b == 93
        || b == 45 || b == 95 || b == 46
}

/// A valid account name: four to twenty bytes, all from the allowed set.
pub open spec fn spec_username_valid(bs: Seq<u8>) -> bool {
    4 <= bs.len() <= 20 && forall|i: int| 0 <= i < bs.len() ==> username_byte_ok(#[trigger] bs[i])
}

/// A byte allowed in a password: a letter or a digit.
pub open spec fn password_byte_ok(b: u8) -> bool {
    (97 <= b && b <= 122) || (65 <= b && b <= 90) || (48 <= b && b <= 57)
}

/// A valid password: four to twenty bytes, all letters or digits.
pub open spec fn spec_password_valid(bs: Seq<u8>) -> bool {
    4 <= bs.len() <= 20 && forall|i: int| 0 <= i < bs.len() ==> password_byte_ok(#[trigger] bs[i])
}

/// Whether the text is a valid account name.
pub fn check_username_valid(user_id: &str) -> (r: bool)
    ensures
        r == spec_username_valid(encode_utf8(user_id@)),
{
    let bs = user_id.as_bytes();
    let n = bs.len();
    if n < 4 || n > 20 {
        return false;
    }
    let mut i: usize = 0;
    while i < n
        invariant
            i <= n,
            n == bs@.len(),
            bs@ == encode_utf8(user_id@),
            4 <= n <= 20,
            forall|k: int| 0 <= k < i ==> username_byte_ok(#[trigger] bs@[k]),
        decreases n - i,
    {
        let b = bs[i];
        let ok = (97 <= b && b <= 122) || (65 <= b && b <= 90) || (48 <= b && b <= 57) || b == 91
            || b == 93 || b == 45 || b == 95 || b == 46;
        if !ok {
            return false;
        }
        i += 1;
    }
    true
}

/// Whether the text is a valid password.
pub fn check_password_valid(password: &str) -> (r: bool)
    ensures
        r == spec_password_valid(encode_utf8(password@)),
{
    let bs = password.as_bytes();
    let n = bs.len();
    if n < 4 || n > 20 {
        return false;
    }
    let mut i: usize = 0;
    while i < n
        invariant
            i <= n,
            n == bs@.len(),
            bs@ == encode_utf8(password@),
            4 <= n <= 20,
            forall|k: int| 0 <= k < i ==> password_byte_ok(#[trigger] bs@[k]),
        decreases n - i,
    {
        let b = bs[i];
        let ok = (97 <= b && b <= 122) || (65 <= b && b <= 90) || (48 <= b && b <= 57);
        if !ok {
            return false;
        }
        i += 1;
    }
    true
}

/// The decimal digit character for `d`, meaningful for `0 <= d <= 9`.
pub open spec fn dc(d: int) -> char {
    if d == 0 {
        '0'
    } else if d == 1 {
        '1'
    } else if d == 2 {
        '2'
    } else if d == 3 {
        '3'
    } else if d == 4 {
        '4'
    } else if d == 5 {
        '5'
    } else if d == 6 {
        '6'
    } else if d == 7 {
        '7'
    } else if d == 8 {
        '8'
    } else {
        '9'
    }
}

/// The eight decimal digits of `n`, zero-padded, most significant first.
pub open spec fn spec_digits8(n: int) -> Seq<char> {
    seq![
        dc(n / 10_000_000 % 10),
        dc(n / 1_000_000 % 10),
        dc(n / 100_000 % 10),
        dc(n / 10_000 % 10),
        dc(n / 1_000 % 10),
        dc(n / 100 % 10),
        dc(n / 10 % 10),
        dc(n % 10),
    ]
}

/// A generated password: the fixed prefix and eight zero-padded digits.
pub open spec fn spec_password(n: u32) -> Seq<char> {
    "fate"@ + spec_digits8(n as int)
}

/// The one-character text for a decimal digit.
fn digit_str(d: u32) -> (r: &'static str)
    requires
        d < 10,
    ensures
        r@ == seq![dc(d as int)],
{
    proof {
        reveal_strlit("0");
        reveal_strlit("1");
        reveal_strlit("2");
        reveal_strlit("3");
        reveal_strlit("4");
        reveal_strlit("5");
        reveal_strlit("6");
        reveal_strlit("7");
        reveal_strlit("8");
        reveal_strlit("9");
    }
    let r = match d {
        0 => "0",
        1 => "1",
        2 => "2",
        3 => "3",
        4 => "4",
        5 => "5",
        6 => "6",
        7 => "7",
        8 => "8",
        _ => "9",
    };
    proof {
        assert(r@ =~= seq![dc(d as int)]);
    }
    r
}

/// Renders the password for draw `n`: the fixed prefix and the eight
/// zero-padded decimal digits of `n`.
pub fn password_from_number(n: u32) -> (r: String)
    requires
        n < 100_000_000,
    ensures
        r@ == spec_password(n),
{
    let mut s: String = "fate".to_owned();
    s.append(digit_str((n / 10_000_000) % 10));
    s.append(digit_str((n / 1_000_000) % 10));
    s.append(digit_str((n / 100_000) % 10));
    s.append(digit_str((n / 10_000) % 10));
    s.append(digit_str((n / 1_000) % 10));
    s.append(digit_str((n / 100) % 10));
    s.append(digit_str((n / 10) % 10));
    s.append(digit_str(n % 10));
    proof {
        assert(s@ =~= spec_password(n));
    }
    s
}

/// Every character of a generated password is ASCII, and there are twelve.
pub proof fn lemma_password_ascii(n: u32)
    ensures
        spec_password(n).len() == 12,
        forall|i: int| 0 <= i < spec_password(n).len() ==> (#[trigger] spec_password(n)[i]
            as u32) < 128,
{
    reveal_strlit("fate");
    assert forall|i: int| 0 <= i < spec_password(n).len() implies (#[trigger] spec_password(n)[i]
        as u32) < 128 by {
        if i >= 4 {
            assert(spec_password(n)[i] == spec_digits8(n as int)[i - 4]);
        }
    }
}

/// Draws a random number and renders the password for it.  The draw is
/// below one hundred million, so the result always exists and always has
/// the generated shape.
pub fn create_random_password() -> (r: Option<String>)
    ensures
        match r {
            Some(p) => exists|n: u32| n < 100_000_000 && p@ == spec_password(n),
            None => false,
        },
{
    let n = random_below_100_000_000();
    let p = password_from_number(n);
    proof {
        lemma_password_ascii(n);
    }
    let h = hash_account_password(p.as_str());
    match h {
        Some(_) => Some(p),
        None => None,
    }
}

/// A new user record: the template with the user id, the account name and
/// the hashed password filled in for their placeholders.
pub open spec fn spec_render(t: Seq<u8>, uid: nat, user: Seq<char>, hash: Seq<char>) -> Seq<u8> {
    spec_replace_all(
        spec_replace_all(
            spec_replace_all(t, encode_utf8("{{ userid }}"@), spec_dec(uid)),
            encode_utf8("{{ username }}"@),
            encode_utf8(user),
        ),
        encode_utf8("{{ password }}"@),
        encode_utf8(hash),
    )
}

/// Fills the user record template: the user id, the account name and the
/// hashed password replace their placeholders.
pub fn render_user_template(template: &[u8], uid: u64, username: &str, pwd_hash: &str) -> (r: Vec<
    u8,
>)
    ensures
        r@ == spec_render(template@, uid as nat, username@, pwd_hash@),
{
    let d = u64_to_dec(uid);
    let s1 = replace_all(template, "{{ userid }}".as_bytes(), d.as_slice());
    let s2 = replace_all(s1.as_slice(), "{{ username }}".as_bytes(), username.as_bytes());
    let s3 = replace_all(s2.as_slice(), "{{ password }}".as_bytes(), pwd_hash.as_bytes());
    s3
}

/// Case-insensitive equality of two names, under the library's folding.
pub open spec fn ci_eq(a: Seq<char>, b: Seq<char>) -> bool {
    lower_of(a) == lower_of(b)
}

/// Scans the store's file names for `target`, case-insensitively.  With no
/// clash it reports how many entries the store holds; a clash reports the
/// existing entry's own name.
pub fn check_exist(names: &Vec<String>, target: &str) -> (r: Result<usize, ResponseCode>)
    ensures
        match r {
            Ok(c) => c == names@.len() && forall|i: int|
                0 <= i < names@.len() ==> !ci_eq(#[trigger] names@[i]@, target@),
            Err(e) => e matches ResponseCode::UserIdTaken(nm) && exists|i: int|
                {
                    &&& 0 <= i < names@.len()
                    &&& ci_eq(#[trigger] names@[i]@, target@)
                    &&& nm@ == names@[i]@
                    &&& forall|j: int| 0 <= j < i ==> !ci_eq(#[trigger] names@[j]@, target@)
                },
        },
{
    let tl = to_lowercase_str(target);
    let n = names.len();
    let mut i: usize = 0;
    while i < n
        invariant
            i <= n,
            n == names@.len(),
            tl@ == lower_of(target@),
            forall|j: int| 0 <= j < i ==> !ci_eq(#[trigger] names@[j]@, target@),
        decreases n - i,
    {
        let nl = to_lowercase_str(names[i].as_str());
        if nl.eq(&tl) {
            let nm = names[i].clone();
            return Err(ResponseCode::UserIdTaken(nm));
        }
        i += 1;
    }
    Ok(n)
}

/// Resolves a user's credential file: the store entry whose name matches
/// the account name case-insensitively, or `NotRegistered` when there is
/// none.
pub fn find_credential_file(names: &Vec<String>, username: &str) -> (r: Result<
    String,
    ResponseCode,
>)
    ensures
        match r {
            Ok(nm) => exists|i: int|
                {
                    &&& 0 <= i < names@.len()
                    &&& ci_eq(#[trigger] names@[i]@, username@)
                    &&& nm@ == names@[i]@
                    &&& forall|j: int| 0 <= j < i ==> !ci_eq(#[trigger] names@[j]@, username@)
                },
            Err(e) => e == ResponseCode::NotRegistered && forall|i: int|
                0 <= i < names@.len() ==> !ci_eq(#[trigger] names@[i]@, username@),
        },
{
    match check_exist(names, username) {
        Ok(_) => Err(ResponseCode::NotRegistered),
        Err(code) => match code {
            ResponseCode::UserIdTaken(nm) => Ok(nm),
            _ => Err(ResponseCode::ServerError),
        },
    }
}

/// The text that introduces the stored password hash in a credential
/// file's key/value syntax.
pub open spec fn passhash_key() -> Seq<u8> {
    encode_utf8("\"BNET\\\\acct\\\\passhash1\"=\""@)
}

/// The stored password hash of a credential file: the bytes between the
/// leftmost occurrence of the pass-hash key and the next quote; none if
/// the key is absent or the quote never closes.
pub open spec fn spec_extract_passhash(content: Seq<u8>) -> Option<Seq<u8>> {
    match spec_find(content, passhash_key()) {
        None => None,
        Some(i) => {
            let after = content.subrange(i + passhash_key().len(), content.len() as int);
            match spec_find(after, encode_utf8("\""@)) {
                None => None,
                Some(j) => Some(after.subrange(0, j)),
            }
        },
    }
}

/// Extracts the stored password hash from a credential file's text.
pub fn extract_stored_password(content: &str) -> (r: Option<Vec<u8>>)
    ensures
        match r {
            Some(v) => spec_extract_passhash(encode_utf8(content@)) == Some(v@),
            None => spec_extract_passhash(encode_utf8(content@)) is None,
        },
{
    let cb = content.as_bytes();
    let key = "\"BNET\\\\acct\\\\passhash1\"=\"".as_bytes();
    proof {
        lemma_find_characterization(cb@, key@);
    }
    match find_sub(cb, key) {
        None => None,
        Some(i) => {
            let cl = cb.len();
            assert(i + key@.len() <= cl);
            let after = &cb[i + key.len()..cl];
            let quote = "\"".as_bytes();
            proof {
                lemma_find_characterization(after@, quote@);
            }
            match find_sub(after, quote) {
                None => None,
                Some(j) => {
                    assert(j <= after@.len());
                    let mut v: Vec<u8> = Vec::new();
                    v.extend_from_slice(&after[0..j]);
                    Some(v)
                },
            }
        },
    }
}

/// Checks a password against a credential file's text: the stored hash
/// must be present, non-empty and equal to the given text.  A file without
/// a well-formed stored hash is a server-side fault.
pub fn verify_credentials_content(content: &str, password: &str) -> (r: Result<(), ResponseCode>)
    ensures
        match spec_extract_passhash(encode_utf8(content@)) {
            None => r == Err::<(), ResponseCode>(ResponseCode::ServerError),
            Some(h) => {
                if h.len() == 0 {
                    r == Err::<(), ResponseCode>(ResponseCode::ServerError)
                } else if h == encode_utf8(password@) {
                    r == Ok::<(), ResponseCode>(())
                } else {
                    r == Err::<(), ResponseCode>(ResponseCode::InvalidPasswordInput)
                }
            },
        },
{
    match extract_stored_password(content) {
        None => Err(ResponseCode::ServerError),
        Some(stored) => {
            if stored.len() == 0 {
                Err(ResponseCode::ServerError)
            } else if bytes_eq(stored.as_slice(), password.as_bytes()) {
                Ok(())
            } else {
                Err(ResponseCode::InvalidPasswordInput)
            }
        },
    }
}

/// Builds the record for a new account: checks the name, scans the store
/// for a clash, assigns the next user id, draws a password and renders the
/// record with its hash.  Returns the plain password and the record bytes.
pub fn prepare_user_record(
    template: &[u8],
    names: &Vec<String>,
    username: &str,
    uid_offset: u32,
) -> (r: Result<(String, Vec<u8>), ResponseCode>)
    requires
        names@.len() + uid_offset + 1 <= u64::MAX,
    ensures
        match r {
            Ok((pw, rec)) => {
                &&& spec_username_valid(encode_utf8(username@))
                &&& forall|i: int|
                    0 <= i < names@.len() ==> !ci_eq(#[trigger] names@[i]@, username@)
                &&& exists|n: u32|
                    {
                        &&& n < 100_000_000
                        &&& pw@ == spec_password(n)
                        &&& rec@ == spec_render(
                            template@,
                            (1 + uid_offset + names@.len()) as nat,
                            username@,
                            pvpgn_hash_of(spec_password(n)),
                        )
                    }
            },
            Err(e) => {
                if !spec_username_valid(encode_utf8(username@)) {
                    e == ResponseCode::InvalidInput
                } else {
                    e matches ResponseCode::UserIdTaken(nm) && exists|i: int|
                        {
                            &&& 0 <= i < names@.len()
                            &&& ci_eq(#[trigger] names@[i]@, username@)
                            &&& nm@ == names@[i]@
                        }
                }
            },
        },
{
    if !check_username_valid(username) {
        return Err(ResponseCode::InvalidInput);
    }
    let count = match check_exist(names, username) {
        Ok(c) => c,
        Err(e) => {
            return Err(e);
        },
    };
    let uid: u64 = 1 + (uid_offset as u64) + (count as u64);
    let n = random_below_100_000_000();
    let pw = password_from_number(n);
    proof {
        lemma_password_ascii(n);
    }
    let hashed = match hash_account_password(pw.as_str()) {
        Some(h) => h,
        None => {
            proof {
                assert(false);
            }
            return Err(ResponseCode::ServerError);
        },
    };
    let rec = render_user_template(template, uid, username, hashed.as_str());
    Ok((pw, rec))
}

/// A request to provision an account: the name asked for and the caller's
/// authorisation code.
#[derive(Debug, Clone, PartialEq, Eq)]
pub struct AddUserReq {
    pub username: String,
    pub valid_code: String,
}

/// The answer to a provisioning request: the account name and the
/// generated password.
#[derive(Debug, Clone, PartialEq, Eq)]
pub struct AddUserResp {
    pub username: String,
    pub password: String,
}

/// Whether a provisioning request carries the expected authorisation code.
pub fn add_user_authorised(req: &AddUserReq, expected_code: &str) -> (r: bool)
    ensures
        r == (req.valid_code@ == expected_code@),
{
    let expected: String = expected_code.to_owned();
    req.valid_code.eq(&expected)
}

} // verus!
