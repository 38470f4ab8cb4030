//! The records the deployment service exchanges, and the client that
//! speaks to it: request building and response classification.

use vstd::prelude::*;

use crate::chars::{dec_i32, fmt_i32, str_to_chars};
use crate::errors::{ErrorModel, SamsonrError};
use crate::json::{json_escape, json_escape_x, lemma_escape_parses_back, sp_string_rest};
use crate::wire::{
    parse_deploy_body_x, parse_error_body_x, parse_projects_body_x, parse_stages_body_x,
    sp_deploy_body, sp_error_body, sp_projects_body, sp_stages_body,
};

verus! {

/// A deployable application tracked by the service.
#[derive(Debug, Clone, PartialEq, Eq)]
pub struct Project {
    pub id: i32,
    pub name: String,
    pub last_deployed_at: String,
    pub last_deployed_by: String,
}

/// A deployment target within a project.
#[derive(Debug, Clone, PartialEq, Eq)]
pub struct Stage {
    pub id: i32,
    pub name: String,
}

/// The service's confirmation that a deployment was accepted.
#[derive(Debug, Clone, PartialEq, Eq)]
pub struct DeployResponse {
    pub summary: String,
}

/// The error record the service sends when it rejects a request.
#[derive(Debug, Clone, PartialEq, Eq)]
pub struct Error {
    pub status: i32,
    pub error: String,
}

/// The mathematical model of a `Project`.
pub struct ProjectModel {
    pub id: int,
    pub name: Seq<char>,
    pub last_deployed_at: Seq<char>,
    pub last_deployed_by: Seq<char>,
}

/// The mathematical model of a `Stage`.
pub struct StageModel {
    pub id: int,
    pub name: Seq<char>,
}

/// The mathematical model of an `Error`.
pub struct RemoteErrorModel {
    pub status: int,
    pub error: Seq<char>,
}

impl View for Project {
    type V = ProjectModel;

    open spec fn view(&self) -> ProjectModel {
        ProjectModel {
            id: self.id as int,
            name: self.name@,
            last_deployed_at: self.last_deployed_at@,
            last_deployed_by: self.last_deployed_by@,
        }
    }
}

impl DeepView for Project {
    type V = ProjectModel;

    open spec fn deep_view(&self) -> ProjectModel {
        self.view()
    }
}

impl View for Stage {
    type V = StageModel;

    open spec fn view(&self) -> StageModel {
        StageModel { id: self.id as int, name: self.name@ }
    }
}

impl DeepView for Stage {
    type V = StageModel;

    open spec fn deep_view(&self) -> StageModel {
        self.view()
    }
}

impl View for Error {
    type V = RemoteErrorModel;

    open spec fn view(&self) -> RemoteErrorModel {
        RemoteErrorModel { status: self.status as int, error: self.error@ }
    }
}

impl View for DeployResponse {
    type V = Seq<char>;

    open spec fn view(&self) -> Seq<char> {
        self.summary@
    }
}

/// A character the transport accepts inside a header value: the
/// horizontal tab, or anything that is not a control character.
pub open spec fn valid_header_char(c: char) -> bool {
    c == '\t' || (c as u32 >= 32 && c as u32 != 127)
}

/// A token the client can be built with: non-empty, and able to be
/// carried in an authorization header.
pub open spec fn valid_token(t: Seq<char>) -> bool {
    t.len() > 0 && (forall|i: int| 0 <= i < t.len() ==> #[trigger] valid_header_char(t[i]))
}

/// The fixed address of the service.
pub open spec fn base_url() -> Seq<char> {
    "https://deploy.meisterlabs.com"@
}

/// The address that lists the projects.
pub open spec fn projects_url_spec() -> Seq<char> {
    base_url() + "/projects.json"@
}

/// The address that lists the stages of one project.
pub open spec fn stages_url_spec(project_id: int) -> Seq<char> {
    base_url() + "/projects/"@ + dec_i32(project_id) + "/stages.json"@
}

/// The address that accepts a deployment for one stage of one project.
pub open spec fn deploy_url_spec(project_id: int, stage_id: int) -> Seq<char> {
    base_url() + "/projects/"@ + dec_i32(project_id) + "/stages/"@ + dec_i32(stage_id)
        + "/deploys.json"@
}

/// The body of a deployment request for a reference.
pub open spec fn deploy_body_spec(reference: Seq<char>) -> Seq<char> {
    "{\"deploy\":{\"reference\":\""@ + json_escape(reference) + "\"}}"@
}

/// The fixed name this client reports itself under.
pub open spec fn user_agent() -> Seq<char> {
    "samsonr/0.1.0"@
}

/// The two verbs the service is spoken to with.
#[derive(Debug, Clone, Copy, PartialEq, Eq, Structural)]
pub enum HttpMethod {
    Get,
    Post,
}

/// One outbound request, ready to be performed: it carries exactly one
/// authorization value and one user agent.
#[derive(Debug, Clone)]
pub struct ApiRequest {
    pub method: HttpMethod,
    pub url: String,
    pub body: Option<String>,
    pub authorization: String,
    pub user_agent: String,
}

/// The client: it remembers the token every request is authorized
/// with. Requests are built here and performed outside the library.
#[derive(Debug, Clone)]
pub struct Client {
    pub token: String,
}

fn base_url_x() -> (r: String)
    ensures
        r@ == base_url(),
{
    String::from_str("https://deploy.meisterlabs.com")
}

impl Client {
    /// Builds a client. This succeeds exactly when the token is
    /// non-empty and fits into a header value, that is, holds no
    /// control character.
    pub fn new(token: &String) -> (r: Result<Client, SamsonrError>)
        ensures
            valid_token(token@) ==> (r matches Ok(c) && c.token@ == token@),
            !valid_token(token@) ==> (r matches Err(e) && e == SamsonrError::ClientBuild),
    {
        if token.as_str().is_empty() {
            return Err(SamsonrError::ClientBuild);
        }
        let cs = str_to_chars(token.as_str());
        let mut i: usize = 0;
        while i < cs.len()
            invariant
                i <= cs@.len(),
                cs@ == token@,
                forall|k: int| 0 <= k < i ==> #[trigger] valid_header_char(cs@[k]),
            decreases cs@.len() - i,
        {
            let c = cs[i];
            if !(c == '\t' || (c as u32 >= 32 && c as u32 != 127)) {
                proof {
                    assert(!valid_header_char(token@[i as int]));
                }
                return Err(SamsonrError::ClientBuild);
            }
            i += 1;
        }
        Ok(Client { token: token.clone() })
    }

    /// The value of the one authorization header every request carries.
    pub fn auth_header(&self) -> (r: String)
        ensures
            r@ == "Bearer "@ + self.token@,
    {
        String::from_str("Bearer ").concat(self.token.as_str())
    }

    /// The request that lists the projects.
    pub fn projects_request(&self) -> (r: ApiRequest)
        ensures
            r.method == HttpMethod::Get,
            r.url@ == projects_url_spec(),
            r.body is None,
            r.authorization@ == "Bearer "@ + self.token@,
            r.user_agent@ == user_agent(),
    {
        ApiRequest {
            method: HttpMethod::Get,
            url: base_url_x().concat("/projects.json"),
            body: None,
            authorization: self.auth_header(),
            user_agent: String::from_str("samsonr/0.1.0"),
        }
    }

    /// The request that lists the stages of one project.
    pub fn stages_request(&self, project_id: i32) -> (r: ApiRequest)
        ensures
            r.method == HttpMethod::Get,
            r.url@ == stages_url_spec(project_id as int),
            r.body is None,
            r.authorization@ == "Bearer "@ + self.token@,
            r.user_agent@ == user_agent(),
    {
        let url = base_url_x().concat("/projects/").concat(fmt_i32(project_id).as_str()).concat(
            "/stages.json",
        );
        proof {
            assert(url@ =~= stages_url_spec(project_id as int));
        }
        ApiRequest {
            method: HttpMethod::Get,
            url: url,
            body: None,
            authorization: self.auth_header(),
            user_agent: String::from_str("samsonr/0.1.0"),
        }
    }

    /// The request that deploys a reference to one stage of one
    /// project.
    pub fn deploy_request(&self, project_id: i32, stage_id: i32, reference: &String) -> (r:
        ApiRequest)
        ensures
            r.method == HttpMethod::Post,
            r.url@ == deploy_url_spec(project_id as int, stage_id as int),
            r.body matches Some(b) && b@ == deploy_body_spec(reference@),
            r.authorization@ == "Bearer "@ + self.token@,
            r.user_agent@ == user_agent(),
    {
        let url = base_url_x().concat("/projects/").concat(fmt_i32(project_id).as_str()).concat(
            "/stages/",
        ).concat(fmt_i32(stage_id).as_str()).concat("/deploys.json");
        proof {
            assert(url@ =~= deploy_url_spec(project_id as int, stage_id as int));
        }
        let escaped = crate::chars::chars_to_string(&json_escape_x(&str_to_chars(
            reference.as_str(),
        )));
        let body = String::from_str("{\"deploy\":{\"reference\":\"").concat(escaped.as_str()).concat(
            "\"}}",
        );
        proof {
            assert(body@ =~= deploy_body_spec(reference@));
        }
        ApiRequest {
            method: HttpMethod::Post,
            url: url,
            body: Some(body),
            authorization: self.auth_header(),
            user_agent: String::from_str("samsonr/0.1.0"),
        }
    }
}

/// What classifying a projects response yields for every status and
/// body: a success status with a well-formed body gives the projects; a
/// success status with any other body is a format error carrying the
/// body; any other status gives the rejection the body describes, or a
/// format error where the body describes none.
pub open spec fn spec_projects_response(status: u16, body: Seq<char>) -> Result<
    Seq<ProjectModel>,
    ErrorModel,
> {
    if status == 200 || status == 201 {
        match sp_projects_body(body) {
            Some(ps) => Ok(ps),
            None => Err(ErrorModel::ResponseFormat(body)),
        }
    } else {
        match sp_error_body(body) {
            Some(em) => Err(ErrorModel::RemoteRejection { status: em.status, message: em.error }),
            None => Err(ErrorModel::ResponseFormat(body)),
        }
    }
}

/// What classifying a stages response yields, under the same rules.
pub open spec fn spec_stages_response(status: u16, body: Seq<char>) -> Result<
    Seq<StageModel>,
    ErrorModel,
> {
    if status == 200 || status == 201 {
        match sp_stages_body(body) {
            Some(ps) => Ok(ps),
            None => Err(ErrorModel::ResponseFormat(body)),
        }
    } else {
        match sp_error_body(body) {
            Some(em) => Err(ErrorModel::RemoteRejection { status: em.status, message: em.error }),
            None => Err(ErrorModel::ResponseFormat(body)),
        }
    }
}

/// What classifying a deployment response yields, under the same
/// rules; success carries the confirmation's summary.
pub open spec fn spec_deploy_response(status: u16, body: Seq<char>) -> Result<
    Seq<char>,
    ErrorModel,
> {
    if status == 200 || status == 201 {
        match sp_deploy_body(body) {
            Some(t) => Ok(t),
            None => Err(ErrorModel::ResponseFormat(body)),
        }
    } else {
        match sp_error_body(body) {
            Some(em) => Err(ErrorModel::RemoteRejection { status: em.status, message: em.error }),
            None => Err(ErrorModel::ResponseFormat(body)),
        }
    }
}

/// The model of a classified projects response.
pub open spec fn projects_result_model(r: Result<Vec<Project>, SamsonrError>) -> Result<
    Seq<ProjectModel>,
    ErrorModel,
> {
    match r {
        Ok(v) => Ok(v.deep_view()),
        Err(e) => Err(e@),
    }
}

/// The model of a classified stages response.
pub open spec fn stages_result_model(r: Result<Vec<Stage>, SamsonrError>) -> Result<
    Seq<StageModel>,
    ErrorModel,
> {
    match r {
        Ok(v) => Ok(v.deep_view()),
        Err(e) => Err(e@),
    }
}

/// The model of a classified deployment response.
pub open spec fn deploy_result_model(r: Result<DeployResponse, SamsonrError>) -> Result<
    Seq<char>,
    ErrorModel,
> {
    match r {
        Ok(d) => Ok(d@),
        Err(e) => Err(e@),
    }
}

/// Classifies a projects response from its status and body.
pub fn parse_projects_response(status: u16, body: &str) -> (r: Result<Vec<Project>, SamsonrError>)
    ensures
        projects_result_model(r) == spec_projects_response(status, body@),
{
    let cs = str_to_chars(body);
    if status == 200 || status == 201 {
        match parse_projects_body_x(&cs) {
            Some(ps) => Ok(ps),
            None => Err(SamsonrError::ResponseFormat(String::from_str(body))),
        }
    } else {
        match parse_error_body_x(&cs) {
            Some(err) => Err(
                SamsonrError::RemoteRejection { status: err.status, message: err.error },
            ),
            None => Err(SamsonrError::ResponseFormat(String::from_str(body))),
        }
    }
}

/// Classifies a stages response from its status and body.
pub fn parse_stages_response(status: u16, body: &str) -> (r: Result<Vec<Stage>, SamsonrError>)
    ensures
        stages_result_model(r) == spec_stages_response(status, body@),
{
    let cs = str_to_chars(body);
    if status == 200 || status == 201 {
        match parse_stages_body_x(&cs) {
            Some(ps) => Ok(ps),
            None => Err(SamsonrError::ResponseFormat(String::from_str(body))),
        }
    } else {
        match parse_error_body_x(&cs) {
            Some(err) => Err(
                SamsonrError::RemoteRejection { status: err.status, message: err.error },
            ),
            None => Err(SamsonrError::ResponseFormat(String::from_str(body))),
        }
    }
}

/// Classifies a deployment response from its status and body.
pub fn parse_deploy_response(status: u16, body: &str) -> (r: Result<DeployResponse, SamsonrError>)
    ensures
        deploy_result_model(r) == spec_deploy_response(status, body@),
{
    let cs = str_to_chars(body);
    if status == 200 || status == 201 {
        match parse_deploy_body_x(&cs) {
            Some(t) => Ok(DeployResponse { summary: t }),
            None => Err(SamsonrError::ResponseFormat(String::from_str(body))),
        }
    } else {
        match parse_error_body_x(&cs) {
            Some(err) => Err(
                SamsonrError::RemoteRejection { status: err.status, message: err.error },
            ),
            None => Err(SamsonrError::ResponseFormat(String::from_str(body))),
        }
    }
}

/// Listing projects keeps no local state: the outcome is a function of
/// the response alone, so as long as the remote state is unchanged,
/// repeated calls classify to identical results.
pub proof fn lemma_projects_response_idempotent(
    status1: u16,
    body1: Seq<char>,
    status2: u16,
    body2: Seq<char>,
)
    requires
        status1 == status2,
        body1 == body2,
    ensures
        spec_projects_response(status1, body1) == spec_projects_response(status2, body2),
{
}

/// The serializer and the parser of the wire format agree: inside the
/// body a deployment request is sent with, the written reference reads
/// back as exactly the reference that was given, whatever it holds.
pub proof fn lemma_deploy_body_round_trip(reference: Seq<char>)
    ensures
        sp_string_rest(deploy_body_spec(reference), 24) == Some(
            (reference, 24 + json_escape(reference).len() as int + 1),
        ),
{
    reveal_strlit("{\"deploy\":{\"reference\":\"");
    reveal_strlit("\"}}");
    let prefix = "{\"deploy\":{\"reference\":\""@;
    let suffix = "\"}}"@;
    let esc = json_escape(reference);
    let u = deploy_body_spec(reference);
    assert(prefix.len() == 24);
    assert(u == prefix + esc + suffix);
    assert(u.subrange(24, 24 + esc.len() as int) =~= esc) by {
        assert forall|k: int| 0 <= k < esc.len() implies u.subrange(
            24,
            24 + esc.len() as int,
        )[k] == esc[k] by {
            assert(u[24 + k] == (prefix + esc)[24 + k]);
            assert((prefix + esc)[24 + k] == esc[k]);
        }
    }
    assert(u[24 + esc.len() as int] == suffix[0]);
    assert(suffix[0] == '"');
    lemma_escape_parses_back(u, 24, reference);
}

} // verus!
