//! The client's decisions: which profile is meant, what is asked of the
//! service, and what its answer means.

use crate::models::profile::{name_index, position_of, views, OciProfile, ProfileView};
use crate::oci::config_parser::{parse_config, parse_config_in, parsed_profiles};
use crate::oci::paths::opt_view;
use crate::oci::regions::{endpoint_host, region_to_endpoint};
use crate::oci::signature::{Method, RequestView, SigningRequest};
use crate::text::{decimal, decimal_string};
use vstd::prelude::*;
use vstd::string::*;

verus! {

/// How an HTTP call ended.
#[derive(Debug, PartialEq, Eq)]
pub enum HttpOutcome {
    /// The service answered, and its answer was read to the end: `body` is
    /// the text that the service sent.
    Response { status: u16, body: String },
    /// No answer was had in full: the name was not found, the connection
    /// failed, the time ran out, or the body of an answer could not be
    /// read, whatever its status was.
    Failed { detail: String },
}

/// Why a call gave no body.
#[derive(Debug, PartialEq, Eq)]
pub enum ClientError {
    /// No profile has the name that was asked for.
    ProfileNotFound { name: String },
    /// The service refused the signature: status 401.
    Authentication,
    /// The service answered with another status outside 200 to 299.
    Api { status: u16, body: String },
    /// No answer came.
    Network { detail: String },
}

/// What a client error holds, as sequences of characters.
pub enum ErrorView {
    ProfileNotFound { name: Seq<char> },
    Authentication,
    Api { status: u16, body: Seq<char> },
    Network { detail: Seq<char> },
}

impl View for ClientError {
    type V = ErrorView;

    open spec fn view(&self) -> ErrorView {
        match *self {
            ClientError::ProfileNotFound { name } => ErrorView::ProfileNotFound { name: name@ },
            ClientError::Authentication => ErrorView::Authentication,
            ClientError::Api { status, body } => ErrorView::Api { status, body: body@ },
            ClientError::Network { detail } => ErrorView::Network { detail: detail@ },
        }
    }
}

/// What is asked of the service: the request that is signed, and the address
/// that is called.
#[derive(Debug, PartialEq, Eq)]
pub struct RequestPlan {
    pub request: SigningRequest,
    pub url: String,
}

/// The path that is requested: the query follows a question mark.
pub open spec fn full_path(path: Seq<char>, query: Option<Seq<char>>) -> Seq<char> {
    match query {
        Some(q) => path + "?"@ + q,
        None => path,
    }
}

/// The request that reads `path` of `service` in the profile's region.
pub open spec fn get_request_of(
    profile: ProfileView,
    service: Seq<char>,
    path: Seq<char>,
    query: Option<Seq<char>>,
) -> RequestView {
    RequestView {
        method: Method::Get,
        path: full_path(path, query),
        host: endpoint_host(profile.region, service),
        body: None,
    }
}

/// The address of a request.
pub open spec fn url_of(request: RequestView) -> Seq<char> {
    "https://"@ + request.host + request.path
}

/// Whether a status stands for success.
pub open spec fn is_success(status: u16) -> bool {
    200 <= status < 300
}

/// What an outcome means: the body for a status from 200 to 299, an
/// authentication failure for 401, an API error with status and body for
/// any other status, and a network failure where no answer was had in full,
/// an answer whose body could not be read among them.
pub open spec fn classified(outcome: HttpOutcome) -> Result<Seq<char>, ErrorView> {
    match outcome {
        HttpOutcome::Response { status, body } => if is_success(status) {
            Ok(body@)
        } else if status == 401 {
            Err(ErrorView::Authentication)
        } else {
            Err(ErrorView::Api { status, body: body@ })
        },
        HttpOutcome::Failed { detail } => Err(ErrorView::Network { detail: detail@ }),
    }
}

/// The profile named `name`: the first of that name in the list.
pub open spec fn found_profile(profiles: Seq<ProfileView>, name: Seq<char>) -> Result<
    ProfileView,
    ErrorView,
> {
    let i = name_index(profiles, name);
    if i < profiles.len() {
        Ok(profiles[i])
    } else {
        Err(ErrorView::ProfileNotFound { name })
    }
}

/// The view of a result that holds a profile.
pub open spec fn profile_result_view(r: Result<OciProfile, ClientError>) -> Result<
    ProfileView,
    ErrorView,
> {
    match r {
        Ok(p) => Ok(p@),
        Err(e) => Err(e@),
    }
}

/// The view of a result that holds a body.
pub open spec fn body_result_view(r: Result<String, ClientError>) -> Result<Seq<char>, ErrorView> {
    match r {
        Ok(b) => Ok(b@),
        Err(e) => Err(e@),
    }
}

/// The message of an error, as the user reads it.
pub open spec fn error_message(e: ErrorView) -> Seq<char> {
    match e {
        ErrorView::ProfileNotFound { name } => "プロファイル '"@ + name + "' が見つかりません。"@,
        ErrorView::Authentication => "認証エラー。OCID、フィンガープリント、秘密鍵を確認してください。"@,
        ErrorView::Api { status, body } => "API エラー（ステータス: "@ + decimal(status as nat) + "）: "@
            + body,
        ErrorView::Network { detail } => "API リクエストに失敗しました: "@ + detail,
    }
}

impl ClientError {
    /// What to tell the user.
    pub fn message(&self) -> (text: String)
        ensures
            text@ == error_message(self@),
    {
        match self {
            ClientError::ProfileNotFound { name } => {
                let mut text = String::from_str("プロファイル '");
                text.append(name.as_str());
                text.append("' が見つかりません。");
                text
            },
            ClientError::Authentication => String::from_str(
                "認証エラー。OCID、フィンガープリント、秘密鍵を確認してください。",
            ),
            ClientError::Api { status, body } => {
                let mut text = String::from_str("API エラー（ステータス: ");
                let code: u16 = *status;
                text.append(decimal_string(code as usize).as_str());
                text.append("）: ");
                text.append(body.as_str());
                text
            },
            ClientError::Network { detail } => {
                let mut text = String::from_str("API リクエストに失敗しました: ");
                text.append(detail.as_str());
                text
            },
        }
    }
}

/// The profile named `profile_name` among `profiles`.
pub fn find_profile(profiles: &Vec<OciProfile>, profile_name: &str) -> (out: Result<
    OciProfile,
    ClientError,
>)
    ensures
        profile_result_view(out) == found_profile(views(profiles@), profile_name@),
{
    match position_of(profiles, profile_name) {
        Some(i) => Ok(profiles[i].clone()),
        None => Err(ClientError::ProfileNotFound { name: String::from_str(profile_name) }),
    }
}

/// The profile named `profile_name` in the configuration file at
/// `config_path` whose text is `content`, with `home` as the home directory.
pub fn load_profile_in(
    content: &str,
    config_path: &str,
    home: Option<&str>,
    profile_name: &str,
) -> (out: Result<OciProfile, ClientError>)
    ensures
        profile_result_view(out) == found_profile(
            parsed_profiles(content@, config_path@, opt_view(home)),
            profile_name@,
        ),
{
    let profiles = parse_config_in(content, config_path, home);
    find_profile(&profiles, profile_name)
}

/// The profile named `profile_name` in the configuration file at
/// `config_path` whose text is `content`. The home directory is the one that
/// the system gives.
pub fn load_profile(content: &str, config_path: &str, profile_name: &str) -> (out: Result<
    OciProfile,
    ClientError,
>)
    ensures
        exists|home: Option<Seq<char>>|
            profile_result_view(out) == found_profile(
                #[trigger] parsed_profiles(content@, config_path@, home),
                profile_name@,
            ),
{
    let profiles = parse_config(content, config_path);
    find_profile(&profiles, profile_name)
}

/// The request that reads `path` of `service`, with `query` where there is
/// one, and its address.
pub fn get_request(profile: &OciProfile, service: &str, path: &str, query: Option<&str>) -> (plan:
    RequestPlan)
    ensures
        plan.request@ == get_request_of(profile@, service@, path@, opt_view(query)),
        plan.url@ == url_of(plan.request@),
{
    let host = region_to_endpoint(profile.region.as_str(), service);
    let mut full = String::from_str(path);
    if let Some(q) = query {
        full.append("?");
        full.append(q);
    }
    let mut url = String::from_str("https://");
    url.append(host.as_str());
    url.append(full.as_str());
    RequestPlan {
        request: SigningRequest { method: Method::Get, path: full, host, body: None },
        url,
    }
}

/// What `outcome` means for the caller.
pub fn classify_response(outcome: HttpOutcome) -> (out: Result<String, ClientError>)
    ensures
        body_result_view(out) == classified(outcome),
{
    match outcome {
        HttpOutcome::Response { status, body } => {
            if 200 <= status && status < 300 {
                Ok(body)
            } else if status == 401 {
                Err(ClientError::Authentication)
            } else {
                Err(ClientError::Api { status, body })
            }
        },
        HttpOutcome::Failed { detail } => Err(ClientError::Network { detail }),
    }
}

} // verus!
