//! Checking a profile's fields, and the connection test.

use crate::models::profile::{ConnectionResult, OciProfile, ProfileView, ValidationResult};
use crate::oci::client::{get_request, get_request_of, is_success, url_of, HttpOutcome, RequestPlan};
use crate::text::{decimal, decimal_string, is_blank, str_is_blank};
use vstd::prelude::*;
use vstd::string::*;

verus! {

/// Whether the regular expression `pattern` matches somewhere in `text`, as
/// `regex_lite` decides it, or `None` where `pattern` is no regular
/// expression.
pub uninterp spec fn regex_match(pattern: Seq<char>, text: Seq<char>) -> Option<bool>;

/// Searches `text` for a match of `pattern`.
///
/// Calls `regex_lite::Regex::new` and `Regex::is_match`, which depend on the
/// two texts alone.
#[verifier::external_body]
fn regex_is_match(pattern: &str, text: &str) -> (found: Option<bool>)
    ensures
        found == regex_match(pattern@, text@),
{
    match regex_lite::Regex::new(pattern) {
        Ok(re) => Some(re.is_match(text)),
        Err(_) => None,
    }
}

/// The pattern of an identifier: `ocid1.`, a category in lower case, a realm
/// `oc` with a number, and a dot, at the start.
pub open spec fn identifier_pattern() -> Seq<char> {
    "^ocid1\\.[a-z]+\\.oc[0-9]+\\."@
}

/// The pattern of a fingerprint: sixteen groups of two hexadecimal digits,
/// with colons between them.
pub open spec fn fingerprint_pattern() -> Seq<char> {
    "^([0-9a-fA-F]{2}:){15}[0-9a-fA-F]{2}$"@
}

/// Whether `text` is an identifier of the service.
pub open spec fn is_identifier(text: Seq<char>) -> bool {
    regex_match(identifier_pattern(), text) == Some(true)
}

/// Whether `text` is a fingerprint.
pub open spec fn is_fingerprint(text: Seq<char>) -> bool {
    regex_match(fingerprint_pattern(), text) == Some(true)
}

/// The views of a list of strings, in order.
pub open spec fn string_views(strings: Seq<String>) -> Seq<Seq<char>> {
    Seq::new(strings.len(), |i: int| strings[i]@)
}

/// `errors`, with `message` at its end where the check failed.
pub open spec fn with_error(errors: Seq<Seq<char>>, failed: bool, message: Seq<char>) -> Seq<
    Seq<char>,
> {
    if failed {
        errors.push(message)
    } else {
        errors
    }
}

/// The messages for what is wrong with a profile, in the order of the
/// checks, given what the three checks of form have found: a blank name, a
/// user that is no identifier, a tenancy that is no identifier, a blank
/// region, a fingerprint of the wrong form, and a key file whose path is
/// blank or at which no file lies.
pub open spec fn checked_errors(
    profile: ProfileView,
    user_is_identifier: bool,
    tenancy_is_identifier: bool,
    fingerprint_is_valid: bool,
    key_file_exists: bool,
) -> Seq<Seq<char>> {
    let e1 = with_error(Seq::empty(), is_blank(profile.name), "プロファイル名を入力してください。"@);
    let e2 = with_error(
        e1,
        !user_is_identifier,
        "ユーザー OCID の形式が無効です。（例: ocid1.user.oc1..xxx）"@,
    );
    let e3 = with_error(
        e2,
        !tenancy_is_identifier,
        "テナンシー OCID の形式が無効です。（例: ocid1.tenancy.oc1..xxx）"@,
    );
    let e4 = with_error(e3, is_blank(profile.region), "リージョンを選択してください。"@);
    let e5 = with_error(
        e4,
        !fingerprint_is_valid,
        "フィンガープリントの形式が無効です。（例: aa:bb:cc:dd:...）"@,
    );
    if is_blank(profile.key_file) {
        e5.push("秘密鍵ファイルのパスを指定してください。"@)
    } else {
        with_error(e5, !key_file_exists, "指定された秘密鍵ファイルが見つかりません。"@)
    }
}

/// The messages for what is wrong with a profile, in the order of the
/// checks.
pub open spec fn validation_errors(profile: ProfileView, key_file_exists: bool) -> Seq<Seq<char>> {
    checked_errors(
        profile,
        is_identifier(profile.user),
        is_identifier(profile.tenancy),
        is_fingerprint(profile.fingerprint),
        key_file_exists,
    )
}

/// The path of the request that tests a connection: it reads the tenancy.
pub open spec fn connection_path(tenancy: Seq<char>) -> Seq<char> {
    "/20160918/tenancies/"@ + tenancy
}

/// What a connection test tells: success for a status from 200 to 299, and
/// otherwise what went wrong.
pub open spec fn connection_outcome(outcome: HttpOutcome) -> (bool, Seq<char>) {
    match outcome {
        HttpOutcome::Response { status, body } => if is_success(status) {
            (true, "接続テスト成功。認証が正常に確認されました。"@)
        } else if status == 401 {
            (false, "認証エラー。OCID、フィンガープリント、秘密鍵を確認してください。"@)
        } else {
            (false, "API エラー（ステータス: "@ + decimal(status as nat) + "）: "@ + body@)
        },
        HttpOutcome::Failed { detail } => (false, "接続に失敗しました: "@ + detail@),
    }
}

/// Whether `text` is an identifier of the service.
pub fn is_valid_identifier(text: &str) -> (valid: bool)
    ensures
        valid == is_identifier(text@),
{
    match regex_is_match("^ocid1\\.[a-z]+\\.oc[0-9]+\\.", text) {
        Some(found) => found,
        None => false,
    }
}

/// Whether `text` is a fingerprint.
pub fn is_valid_fingerprint(text: &str) -> (valid: bool)
    ensures
        valid == is_fingerprint(text@),
{
    match regex_is_match("^([0-9a-fA-F]{2}:){15}[0-9a-fA-F]{2}$", text) {
        Some(found) => found,
        None => false,
    }
}

fn push_error(errors: &mut Vec<String>, failed: bool, message: &str)
    ensures
        string_views(final(errors)@) == with_error(string_views(old(errors)@), failed, message@),
{
    if failed {
        errors.push(String::from_str(message));
        proof {
            assert(string_views(errors@) =~= string_views(old(errors)@).push(message@));
        }
    }
}

/// The result of checking `profile`, given what the three checks of form
/// have found and whether a file lies at the key file's path.
pub fn validation_result(
    profile: &OciProfile,
    user_is_identifier: bool,
    tenancy_is_identifier: bool,
    fingerprint_is_valid: bool,
    key_file_exists: bool,
) -> (result: ValidationResult)
    ensures
        string_views(result.errors@) == checked_errors(
            profile@,
            user_is_identifier,
            tenancy_is_identifier,
            fingerprint_is_valid,
            key_file_exists,
        ),
        result.valid == (result.errors@.len() == 0),
{
    let mut errors: Vec<String> = Vec::new();
    proof {
        assert(string_views(errors@) =~= Seq::empty());
    }
    push_error(&mut errors, str_is_blank(profile.name.as_str()), "プロファイル名を入力してください。");
    push_error(
        &mut errors,
        !user_is_identifier,
        "ユーザー OCID の形式が無効です。（例: ocid1.user.oc1..xxx）",
    );
    push_error(
        &mut errors,
        !tenancy_is_identifier,
        "テナンシー OCID の形式が無効です。（例: ocid1.tenancy.oc1..xxx）",
    );
    push_error(&mut errors, str_is_blank(profile.region.as_str()), "リージョンを選択してください。");
    push_error(
        &mut errors,
        !fingerprint_is_valid,
        "フィンガープリントの形式が無効です。（例: aa:bb:cc:dd:...）",
    );
    if str_is_blank(profile.key_file.as_str()) {
        push_error(&mut errors, true, "秘密鍵ファイルのパスを指定してください。");
    } else {
        push_error(&mut errors, !key_file_exists, "指定された秘密鍵ファイルが見つかりません。");
    }
    ValidationResult { valid: errors.len() == 0, errors }
}

/// Checks the fields of `profile`. Whether a file lies at the key file's
/// path is for the caller to find out.
pub fn validate_profile(profile: &OciProfile, key_file_exists: bool) -> (result: ValidationResult)
    ensures
        string_views(result.errors@) == validation_errors(profile@, key_file_exists),
        result.valid == (validation_errors(profile@, key_file_exists).len() == 0),
{
    validation_result(
        profile,
        is_valid_identifier(profile.user.as_str()),
        is_valid_identifier(profile.tenancy.as_str()),
        is_valid_fingerprint(profile.fingerprint.as_str()),
        key_file_exists,
    )
}

/// The request that tests the connection of `profile`.
pub fn connection_request(profile: &OciProfile) -> (plan: RequestPlan)
    ensures
        plan.request@ == get_request_of(
            profile@,
            "identity"@,
            connection_path(profile@.tenancy),
            None,
        ),
        plan.url@ == url_of(plan.request@),
{
    let mut path = String::from_str("/20160918/tenancies/");
    path.append(profile.tenancy.as_str());
    get_request(profile, "identity", path.as_str(), None)
}

/// What the outcome of the test request tells the user.
pub fn connection_result(outcome: &HttpOutcome) -> (result: ConnectionResult)
    ensures
        (result.success, result.message@) == connection_outcome(*outcome),
{
    match outcome {
        HttpOutcome::Response { status, body } => {
            let code: u16 = *status;
            if 200 <= code && code < 300 {
                ConnectionResult {
                    success: true,
                    message: String::from_str("接続テスト成功。認証が正常に確認されました。"),
                }
            } else if code == 401 {
                ConnectionResult {
                    success: false,
                    message: String::from_str("認証エラー。OCID、フィンガープリント、秘密鍵を確認してください。"),
                }
            } else {
                let mut message = String::from_str("API エラー（ステータス: ");
                message.append(decimal_string(code as usize).as_str());
                message.append("）: ");
                message.append(body.as_str());
                ConnectionResult { success: false, message }
            }
        },
        HttpOutcome::Failed { detail } => {
            let mut message = String::from_str("接続に失敗しました: ");
            message.append(detail.as_str());
            ConnectionResult { success: false, message }
        },
    }
}

} // verus!
