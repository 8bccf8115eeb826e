//! The login to the video platform, a launch in five steps:
//! 1. GET the Canvas external tool page (sets OIDC cookies)
//! 2. Parse the first form -> POST to OIDC login_initiations
//! 3. Parse the second form -> POST to LTI3 auth (capture redirect)
//! 4. Extract `tokenId` from the `Location` header
//! 5. Exchange `tokenId` for an access token + canvas course ID

use vstd::prelude::*;

use crate::canvas_sjtu::forms::{action_inputs, extract_form_inputs_for_action, extract_token_id,
    forms_of, pairs_view, query_of, token_of, TOKEN_EQUALS, TOKEN_PATH};
use crate::json::{member, text_in, text_of, Json, JsonView};
use crate::outside::first_match;
use crate::text::{opt_view, starts_with, starts_with_of, trim, trim_of, trim_start, trim_start_of};

verus! {

/// Where Canvas is.
pub const CANVAS_BASE: &'static str = "https://oc.sjtu.edu.cn";

/// Where the video platform is.
pub const VIDEO_BASE: &'static str = "https://v.sjtu.edu.cn";

/// Where the accounts are.
pub const AUTH_URL: &'static str = "https://jaccount.sjtu.edu.cn";

/// Where the cookie is tried.
pub const MY_SJTU_URL: &'static str = "https://my.sjtu.edu.cn/ui/appmyinfo";

/// Where the login to Canvas begins.
pub const CANVAS_LOGIN_URL: &'static str = "https://oc.sjtu.edu.cn/login/openid_connect";

/// Where the first form goes.
pub const OIDC_ACTION: &'static str =
    "https://v.sjtu.edu.cn/jy-application-canvas-sjtu/oidc/login_initiations";

/// Where the second form goes.
pub const LTI3_AUTH_ACTION: &'static str =
    "https://v.sjtu.edu.cn/jy-application-canvas-sjtu/lti3/lti3Auth/ivs";

/// The host that asks for an account.
pub const ACCOUNT_HOST: &'static str = "jaccount.sjtu.edu.cn";

/// An authenticated session with the SJTU video platform.
#[derive(Debug)]
pub struct CanvasSession {
    /// The course on Canvas.
    pub course_id: String,
    /// The access token.
    pub token: String,
    /// The course on the video platform.
    pub canvas_course_id: String,
}

/// A session as plain values.
pub struct SessionView {
    /// The course on Canvas.
    pub course_id: Seq<char>,
    /// The access token.
    pub token: Seq<char>,
    /// The course on the video platform.
    pub canvas_course_id: Seq<char>,
}

impl View for CanvasSession {
    type V = SessionView;

    open spec fn view(&self) -> SessionView {
        SessionView {
            course_id: self.course_id@,
            token: self.token@,
            canvas_course_id: self.canvas_course_id@,
        }
    }
}

// ---------------------------------------------------------------------------
// Requests
// ---------------------------------------------------------------------------

/// The cookie to send: the value that was given, under its name.
pub fn cookie_pair(ja_auth_cookie: &str) -> (r: String)
    ensures
        r@ == if starts_with_of(trim_start_of(ja_auth_cookie@), "JAAuthCookie="@) {
            trim_of(ja_auth_cookie@)
        } else {
            "JAAuthCookie="@ + trim_of(ja_auth_cookie@)
        },
{
    let trimmed = trim(ja_auth_cookie);
    if starts_with(trim_start(ja_auth_cookie).as_str(), "JAAuthCookie=") {
        trimmed
    } else {
        let mut out = "JAAuthCookie=".to_owned();
        out.push_str(trimmed.as_str());
        out
    }
}

/// The external tool page of a course.
pub open spec fn tool_url(course_id: Seq<char>) -> Seq<char> {
    "https://oc.sjtu.edu.cn/courses/"@ + course_id + "/external_tools/8329"@
}

/// Where a token is exchanged.
pub open spec fn token_url(token_id: Seq<char>) -> Seq<char> {
    "https://v.sjtu.edu.cn/jy-application-canvas-sjtu/lti3/getAccessTokenByTokenId?tokenId="@
        + token_id
}

/// The external tool page of a course.
fn make_tool_url(course_id: &str) -> (r: String)
    ensures
        r@ == tool_url(course_id@),
{
    let mut out = "https://oc.sjtu.edu.cn/courses/".to_owned();
    out.push_str(course_id);
    out.push_str("/external_tools/8329");
    out
}

/// Where a token is exchanged.
fn make_token_url(token_id: &str) -> (r: String)
    ensures
        r@ == token_url(token_id@),
{
    let mut out = "https://v.sjtu.edu.cn/jy-application-canvas-sjtu/lti3/getAccessTokenByTokenId?tokenId=".to_owned();
    out.push_str(token_id);
    out
}

// ---------------------------------------------------------------------------
// The token
// ---------------------------------------------------------------------------

/// The course on the video platform, in the answer with the token.
pub open spec fn course_in(answer: JsonView) -> Option<Seq<char>> {
    match member(answer, "data"@) {
        None => None,
        Some(data) => {
            let by_params = match member(data, "params"@) {
                Some(p) => member(p, "courId"@),
                None => None,
            };
            match by_params {
                Some(v) => text_of(Some(v)),
                None => text_of(member(data, "canvasCourseId"@)),
            }
        },
    }
}

/// The access token, in the answer with the token.
pub open spec fn token_in_answer(answer: JsonView) -> Option<Seq<char>> {
    match member(answer, "data"@) {
        Some(data) => text_of(member(data, "token"@)),
        None => None,
    }
}

/// The session that an answer gives, or what is missing in it.
pub open spec fn session_in(course_id: Seq<char>, answer: JsonView) -> Result<
    SessionView,
    Seq<char>,
> {
    match (course_in(answer), token_in_answer(answer)) {
        (None, _) => Err("Could not extract canvas course ID"@),
        (Some(_), None) => Err("Could not extract access token"@),
        (Some(canvas_course_id), Some(token)) => Ok(
            SessionView { course_id, token, canvas_course_id },
        ),
    }
}

/// The course on the video platform, in the answer with the token.
fn find_course(answer: &Json) -> (r: Option<String>)
    ensures
        opt_view(r) == course_in(answer@),
{
    let data = match answer.get("data") {
        Some(d) => d,
        None => {
            return None;
        },
    };
    if let Some(p) = data.get("params") {
        if let Some(v) = p.get("courId") {
            return text_in(Some(v));
        }
    }
    text_in(data.get("canvasCourseId"))
}

/// Read the session out of the answer with the token.
pub fn read_session(course_id: &str, answer: &Json) -> (r: Result<CanvasSession, String>)
    ensures
        match r {
            Ok(s) => session_in(course_id@, answer@) == Ok::<SessionView, Seq<char>>(s@),
            Err(e) => session_in(course_id@, answer@) == Err::<SessionView, Seq<char>>(e@),
        },
{
    let canvas_course_id = match find_course(answer) {
        Some(c) => c,
        None => {
            return Err("Could not extract canvas course ID".to_owned());
        },
    };
    let token = match answer.get("data") {
        Some(data) => text_in(data.get("token")),
        None => None,
    };
    match token {
        Some(token) => Ok(CanvasSession { course_id: course_id.to_owned(), token, canvas_course_id }),
        None => Err("Could not extract access token".to_owned()),
    }
}

// ---------------------------------------------------------------------------
// The launch
// ---------------------------------------------------------------------------

/// What a login waits for.
#[derive(Debug, Clone, Copy, PartialEq, Eq, Structural)]
pub enum AuthPhase {
    /// To begin.
    Start,
    /// The answer of the login page.
    Login,
    /// The external tool page.
    Tool,
    /// The answer to the first form.
    Oidc,
    /// The answer to the second form.
    Lti,
    /// The answer with the token.
    Token,
    /// Nothing more.
    Ended,
}

/// What came of the last request.
#[derive(Debug)]
pub enum AuthEvent {
    /// The login begins.
    Begin,
    /// The login page answered, from this host.
    Answered(Option<String>),
    /// A page.
    Page(String),
    /// The address that the answer leads to, where it has one.
    Location(Option<String>),
    /// The address that the answer leads to cannot be read.
    UnreadableLocation,
    /// The answer with the token.
    Answer(Json),
    /// The client for the request could not be made.
    NoClient,
    /// The request failed.
    NotSent,
    /// The answer could not be read.
    NotRead,
}

/// What is to be done next.
#[derive(Debug)]
pub enum AuthStep {
    /// Get this address.
    Get(String),
    /// Post these inputs to this address.
    Post(String, Vec<(String, String)>),
    /// Post these inputs to this address, and do not follow where it leads.
    PostHere(String, Vec<(String, String)>),
    /// The login succeeded.
    Finish(CanvasSession),
    /// The login failed, for this reason.
    Fail(String),
    /// Nothing: the event does not belong here.
    Idle,
}

/// What is to be done next, as plain values.
pub enum AuthStepView {
    /// Get this address.
    Get(Seq<char>),
    /// Post these inputs to this address.
    Post(Seq<char>, Seq<(Seq<char>, Seq<char>)>),
    /// Post these inputs to this address, and do not follow where it leads.
    PostHere(Seq<char>, Seq<(Seq<char>, Seq<char>)>),
    /// The login succeeded.
    Finish(SessionView),
    /// The login failed, for this reason.
    Fail(Seq<char>),
    /// Nothing.
    Idle,
}

impl View for AuthStep {
    type V = AuthStepView;

    open spec fn view(&self) -> AuthStepView {
        match *self {
            AuthStep::Get(u) => AuthStepView::Get(u@),
            AuthStep::Post(u, inputs) => AuthStepView::Post(u@, pairs_view(inputs@)),
            AuthStep::PostHere(u, inputs) => AuthStepView::PostHere(u@, pairs_view(inputs@)),
            AuthStep::Finish(s) => AuthStepView::Finish(s@),
            AuthStep::Fail(e) => AuthStepView::Fail(e@),
            AuthStep::Idle => AuthStepView::Idle,
        }
    }
}

/// The login failed.
pub open spec fn refused(e: Seq<char>) -> (AuthPhase, AuthStepView) {
    (AuthPhase::Ended, AuthStepView::Fail(e))
}

/// What a request that was not answered means.
pub open spec fn unanswered(phase: AuthPhase, event: AuthEvent) -> Option<Seq<char>> {
    match (phase, event) {
        (AuthPhase::Login, AuthEvent::NotSent) => Some("Canvas login warm-up request failed"@),
        (AuthPhase::Tool, AuthEvent::NotSent) => Some("Failed to fetch Canvas external tool page"@),
        (AuthPhase::Tool, AuthEvent::NotRead) => Some("Failed to read external tool page body"@),
        (AuthPhase::Oidc, AuthEvent::NotSent) => Some(
            "Step 2: POST to OIDC login_initiations failed"@,
        ),
        (AuthPhase::Oidc, AuthEvent::NotRead) => Some(
            "Step 2: reading OIDC response body failed"@,
        ),
        (AuthPhase::Lti, AuthEvent::NoClient) => Some(
            "Step 3: building no-redirect client failed"@,
        ),
        (AuthPhase::Lti, AuthEvent::NotSent) => Some("Step 3: POST to LTI3 auth failed"@),
        (AuthPhase::Lti, AuthEvent::UnreadableLocation) => Some(
            "Location header is not valid UTF-8"@,
        ),
        (AuthPhase::Token, AuthEvent::NotSent) => Some(
            "Step 5: getAccessTokenByTokenId request failed"@,
        ),
        (AuthPhase::Token, AuthEvent::NotRead) => Some(
            "Step 5: parsing access token JSON failed"@,
        ),
        _ => None,
    }
}

/// The next step of the login.
pub open spec fn next(phase: AuthPhase, course_id: Seq<char>, event: AuthEvent) -> (
    AuthPhase,
    AuthStepView,
) {
    match (phase, event) {
        (AuthPhase::Start, AuthEvent::Begin) => (
            AuthPhase::Login,
            AuthStepView::Get(CANVAS_LOGIN_URL@),
        ),
        (AuthPhase::Login, AuthEvent::Answered(host)) => if opt_view(host) == Some(ACCOUNT_HOST@) {
            refused(
                "Canvas login warm-up redirected to jAccount; JAAuthCookie may be invalid or expired"@,
            )
        } else {
            (AuthPhase::Tool, AuthStepView::Get(tool_url(course_id)))
        },
        (AuthPhase::Tool, AuthEvent::Page(html)) => match action_inputs(
            forms_of(html@),
            OIDC_ACTION@,
        ) {
            Ok(inputs) => (AuthPhase::Oidc, AuthStepView::Post(OIDC_ACTION@, inputs)),
            Err(_) => refused("Step 2: parsing OIDC form"@),
        },
        (AuthPhase::Oidc, AuthEvent::Page(html)) => match action_inputs(
            forms_of(html@),
            LTI3_AUTH_ACTION@,
        ) {
            Ok(inputs) => (AuthPhase::Lti, AuthStepView::PostHere(LTI3_AUTH_ACTION@, inputs)),
            Err(_) => refused("Step 3: parsing LTI3 form"@),
        },
        (AuthPhase::Lti, AuthEvent::Location(None)) => refused(
            "No Location header in LTI3 auth redirect"@,
        ),
        (AuthPhase::Lti, AuthEvent::Location(Some(location))) => match token_of(
            query_of(location@),
            first_match(TOKEN_EQUALS@, location@),
            first_match(TOKEN_PATH@, location@),
        ) {
            Some(token_id) => (AuthPhase::Token, AuthStepView::Get(token_url(token_id))),
            None => refused("Could not extract tokenId from: "@ + location@),
        },
        (AuthPhase::Token, AuthEvent::Answer(answer)) => match session_in(course_id, answer@) {
            Ok(s) => (AuthPhase::Ended, AuthStepView::Finish(s)),
            Err(e) => refused(e),
        },
        _ => match unanswered(phase, event) {
            Some(e) => refused(e),
            None => (phase, AuthStepView::Idle),
        },
    }
}

/// A login under way.
#[derive(Debug)]
pub struct AuthRun {
    /// What it waits for.
    pub phase: AuthPhase,
}

/// What a request that was not answered means.
fn unanswered_error(phase: AuthPhase, event: &AuthEvent) -> (r: Option<String>)
    ensures
        opt_view(r) == unanswered(phase, *event),
{
    let message = match (phase, event) {
        (AuthPhase::Login, AuthEvent::NotSent) => "Canvas login warm-up request failed",
        (AuthPhase::Tool, AuthEvent::NotSent) => "Failed to fetch Canvas external tool page",
        (AuthPhase::Tool, AuthEvent::NotRead) => "Failed to read external tool page body",
        (AuthPhase::Oidc, AuthEvent::NotSent) => "Step 2: POST to OIDC login_initiations failed",
        (AuthPhase::Oidc, AuthEvent::NotRead) => "Step 2: reading OIDC response body failed",
        (AuthPhase::Lti, AuthEvent::NoClient) => "Step 3: building no-redirect client failed",
        (AuthPhase::Lti, AuthEvent::NotSent) => "Step 3: POST to LTI3 auth failed",
        (AuthPhase::Lti, AuthEvent::UnreadableLocation) => "Location header is not valid UTF-8",
        (AuthPhase::Token, AuthEvent::NotSent) => "Step 5: getAccessTokenByTokenId request failed",
        (AuthPhase::Token, AuthEvent::NotRead) => "Step 5: parsing access token JSON failed",
        _ => {
            return None;
        },
    };
    Some(message.to_owned())
}

impl AuthRun {
    /// A login that has not begun.
    pub fn new() -> (r: AuthRun)
        ensures
            r.phase == AuthPhase::Start,
    {
        AuthRun { phase: AuthPhase::Start }
    }

    /// The login failed.
    fn refuse(&mut self, e: String) -> (r: AuthStep)
        ensures
            (final(self).phase, r@) == refused(e@),
    {
        self.phase = AuthPhase::Ended;
        AuthStep::Fail(e)
    }

    /// The next step of the login, by what came of the last one.
    pub fn authenticate(&mut self, course_id: &str, event: AuthEvent) -> (r: AuthStep)
        ensures
            (final(self).phase, r@) == next(old(self).phase, course_id@, event),
    {
        match (self.phase, event) {
            (AuthPhase::Start, AuthEvent::Begin) => {
                self.phase = AuthPhase::Login;
                AuthStep::Get(CANVAS_LOGIN_URL.to_owned())
            },
            (AuthPhase::Login, AuthEvent::Answered(host)) => {
                let asked = match &host {
                    Some(h) => crate::json::same_text(h.as_str(), ACCOUNT_HOST),
                    None => false,
                };
                if asked {
                    return self.refuse(
                        "Canvas login warm-up redirected to jAccount; JAAuthCookie may be invalid or expired".to_owned(),
                    );
                }
                self.phase = AuthPhase::Tool;
                AuthStep::Get(make_tool_url(course_id))
            },
            (AuthPhase::Tool, AuthEvent::Page(html)) => match extract_form_inputs_for_action(
                html.as_str(),
                OIDC_ACTION,
            ) {
                Ok(inputs) => {
                    self.phase = AuthPhase::Oidc;
                    AuthStep::Post(OIDC_ACTION.to_owned(), inputs)
                },
                Err(_) => self.refuse("Step 2: parsing OIDC form".to_owned()),
            },
            (AuthPhase::Oidc, AuthEvent::Page(html)) => match extract_form_inputs_for_action(
                html.as_str(),
                LTI3_AUTH_ACTION,
            ) {
                Ok(inputs) => {
                    self.phase = AuthPhase::Lti;
                    AuthStep::PostHere(LTI3_AUTH_ACTION.to_owned(), inputs)
                },
                Err(_) => self.refuse("Step 3: parsing LTI3 form".to_owned()),
            },
            (AuthPhase::Lti, AuthEvent::Location(None)) => self.refuse(
                "No Location header in LTI3 auth redirect".to_owned(),
            ),
            (AuthPhase::Lti, AuthEvent::Location(Some(location))) => match extract_token_id(
                location.as_str(),
            ) {
                Ok(token_id) => {
                    self.phase = AuthPhase::Token;
                    AuthStep::Get(make_token_url(token_id.as_str()))
                },
                Err(e) => self.refuse(e),
            },
            (AuthPhase::Token, AuthEvent::Answer(answer)) => match read_session(
                course_id,
                &answer,
            ) {
                Ok(s) => {
                    self.phase = AuthPhase::Ended;
                    AuthStep::Finish(s)
                },
                Err(e) => self.refuse(e),
            },
            (phase, event) => match unanswered_error(phase, &event) {
                Some(e) => self.refuse(e),
                None => AuthStep::Idle,
            },
        }
    }
}

/// How many answers a login still waits for.
pub open spec fn answers_left(phase: AuthPhase) -> int {
    match phase {
        AuthPhase::Start => 6,
        AuthPhase::Login => 5,
        AuthPhase::Tool => 4,
        AuthPhase::Oidc => 3,
        AuthPhase::Lti => 2,
        AuthPhase::Token => 1,
        AuthPhase::Ended => 0,
    }
}

/// A login ends after at most six steps, and every step that belongs to it brings
/// it closer to its end.
pub proof fn law_login_ends(phase: AuthPhase, course_id: Seq<char>, event: AuthEvent)
    ensures
        next(phase, course_id, event).1 is Idle ==> next(phase, course_id, event).0 == phase,
        !(next(phase, course_id, event).1 is Idle) ==> answers_left(
            next(phase, course_id, event).0,
        ) < answers_left(phase),
{
}

/// A login succeeds only on an answer that gives a token and a course, and for the
/// course that was asked for.
pub proof fn law_login_needs_a_token(phase: AuthPhase, course_id: Seq<char>, event: AuthEvent)
    ensures
        next(phase, course_id, event).1 matches AuthStepView::Finish(s) ==> s.course_id == course_id
            && (event matches AuthEvent::Answer(a) && token_in_answer(a@) == Some(s.token)
            && course_in(a@) == Some(s.canvas_course_id)),
{
}

/// The login goes from page to page: to the sign-in of the course platform, to the video
/// tool of the course, with the form found there to the identity provider, with the form
/// found there to the video platform, and with the number found in its answer to the
/// token. A step back to the account host means that the cookie is no longer good.
pub proof fn law_login_goes_from_page_to_page(
    course_id: Seq<char>,
    host: Option<String>,
    html: String,
    location: String,
    token_id: Seq<char>,
)
    ensures
        next(AuthPhase::Start, course_id, AuthEvent::Begin) == (
            AuthPhase::Login,
            AuthStepView::Get("https://oc.sjtu.edu.cn/login/openid_connect"@),
        ),
        opt_view(host) == Some("jaccount.sjtu.edu.cn"@) ==> next(
            AuthPhase::Login,
            course_id,
            AuthEvent::Answered(host),
        ).1 is Fail,
        opt_view(host) != Some("jaccount.sjtu.edu.cn"@) ==> next(
            AuthPhase::Login,
            course_id,
            AuthEvent::Answered(host),
        ) == (
            AuthPhase::Tool,
            AuthStepView::Get(
                "https://oc.sjtu.edu.cn/courses/"@ + course_id + "/external_tools/8329"@,
            ),
        ),
        match action_inputs(forms_of(html@), OIDC_ACTION@) {
            Ok(inputs) => next(AuthPhase::Tool, course_id, AuthEvent::Page(html)) == (
                AuthPhase::Oidc,
                AuthStepView::Post(OIDC_ACTION@, inputs),
            ),
            Err(_) => next(AuthPhase::Tool, course_id, AuthEvent::Page(html)).1 is Fail,
        },
        match action_inputs(forms_of(html@), LTI3_AUTH_ACTION@) {
            Ok(inputs) => next(AuthPhase::Oidc, course_id, AuthEvent::Page(html)) == (
                AuthPhase::Lti,
                AuthStepView::PostHere(LTI3_AUTH_ACTION@, inputs),
            ),
            Err(_) => next(AuthPhase::Oidc, course_id, AuthEvent::Page(html)).1 is Fail,
        },
        token_of(
            query_of(location@),
            first_match(TOKEN_EQUALS@, location@),
            first_match(TOKEN_PATH@, location@),
        ) == Some(token_id) ==> next(
            AuthPhase::Lti,
            course_id,
            AuthEvent::Location(Some(location)),
        ) == (
            AuthPhase::Token,
            AuthStepView::Get(
                "https://v.sjtu.edu.cn/jy-application-canvas-sjtu/lti3/getAccessTokenByTokenId?tokenId="@
                    + token_id,
            ),
        ),
{
}

/// An answer with a token and the number of the course is a session; one without either
/// is refused. The number is that of the parameters where they have one.
pub proof fn law_sessions_of_answers(
    course_id: Seq<char>,
    answer: JsonView,
    data: JsonView,
    token: Seq<char>,
    id: Seq<char>,
)
    requires
        member(answer, "data"@) == Some(data),
    ensures
        member(data, "params"@) is None && member(data, "canvasCourseId"@) == Some(
            JsonView::Text(id),
        ) && member(data, "token"@) == Some(JsonView::Text(token)) ==> session_in(course_id, answer)
            == Ok::<SessionView, Seq<char>>(
            SessionView { course_id, token, canvas_course_id: id },
        ),
        (member(data, "params"@) matches Some(p) && member(p, "courId"@) == Some(JsonView::Text(id)))
            ==> course_in(answer) == Some(id),
        member(data, "token"@) is None ==> session_in(course_id, answer) is Err,
        member(data, "params"@) is None && member(data, "canvasCourseId"@) is None ==> session_in(
            course_id,
            answer,
        ) is Err,
{
}

} // verus!
