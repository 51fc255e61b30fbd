//! Checking a user's credentials for the gated source with the download
//! tool.
use vstd::prelude::*;
use crate::text::{chars_of, concat, push_text, string_from, texts};

verus! {

/// Credentials to check; both must be given and not empty.
#[derive(Clone, Debug, PartialEq, Eq)]
pub struct VerifyPremiumRequest {
    pub username: Option<String>,
    pub password: Option<String>,
}

/// The answer to a credential check.
#[derive(Clone, Debug, PartialEq, Eq)]
pub struct VerifyPremiumResponse {
    pub success: bool,
    pub is_premium: Option<bool>,
    pub message: Option<String>,
    pub error: Option<String>,
}

/// How the checking run of the download tool ended.
#[derive(Clone, Debug, PartialEq, Eq)]
pub enum CheckOutcome {
    /// The tool ran and accepted the credentials.
    Accepted,
    /// The tool ran and refused them.
    Refused,
    /// The tool could not be started.
    NotStarted { reason: String },
}

/// Both credentials are given and not empty.
pub open spec fn has_credentials(req: VerifyPremiumRequest) -> bool {
    &&& req.username matches Some(u) && u@.len() > 0
    &&& req.password matches Some(p) && p@.len() > 0
}

/// The answer with only an error, under a status.
pub open spec fn is_error_answer(r: (u16, VerifyPremiumResponse), status: u16, error: Seq<char>) -> bool {
    &&& r.0 == status
    &&& !r.1.success
    &&& r.1.is_premium is None
    &&& r.1.message is None
    &&& r.1.error matches Some(e) && e@ == error
}

fn error_answer(status: u16, error: String) -> (r: (u16, VerifyPremiumResponse))
    ensures
        is_error_answer(r, status, error@),
{
    (status, VerifyPremiumResponse { success: false, is_premium: None, message: None, error: Some(error) })
}

/// The download tool's command line that checks the credentials, or the
/// answer when they are missing.
pub fn premium_check_command(req: &VerifyPremiumRequest) -> (r: Result<Vec<String>, (u16, VerifyPremiumResponse)>)
    ensures
        !has_credentials(*req) ==> (r matches Err(a) && is_error_answer(a, 400, "Brak danych logowania"@)),
        has_credentials(*req) ==> (r matches Ok(args) && texts(args@) == seq![
            "yt-dlp"@,
            "--username"@,
            req.username->0@,
            "--password"@,
            req.password->0@,
            "--dump-json"@,
            "--playlist-items"@,
            "0"@,
            "--no-download"@,
            "https://www.cda.pl"@,
        ]),
{
    let (u, p) = match (&req.username, &req.password) {
        (Some(u), Some(p)) => (u, p),
        _ => return Err(error_answer(400, string_from("Brak danych logowania"))),
    };
    if chars_of(u.as_str()).len() == 0 || chars_of(p.as_str()).len() == 0 {
        return Err(error_answer(400, string_from("Brak danych logowania")));
    }
    let mut args: Vec<String> = Vec::new();
    push_text(&mut args, "yt-dlp");
    push_text(&mut args, "--username");
    push_text(&mut args, u.as_str());
    push_text(&mut args, "--password");
    push_text(&mut args, p.as_str());
    push_text(&mut args, "--dump-json");
    push_text(&mut args, "--playlist-items");
    push_text(&mut args, "0");
    push_text(&mut args, "--no-download");
    push_text(&mut args, "https://www.cda.pl");
    Ok(args)
}

/// The answer for how the check ended: accepted credentials succeed,
/// refused ones fail with status 200, and a tool that could not be started
/// is a server error.
pub fn premium_check_answer(outcome: &CheckOutcome) -> (r: (u16, VerifyPremiumResponse))
    ensures
        outcome is Accepted ==> {
            &&& r.0 == 200
            &&& r.1.success
            &&& r.1.is_premium is None
            &&& r.1.message matches Some(m) && m@ == "Dane logowania poprawne (status Premium nieznany)"@
            &&& r.1.error is None
        },
        outcome is Refused ==> is_error_answer(r, 200, "Nieprawidłowe dane logowania"@),
        outcome matches CheckOutcome::NotStarted { reason } ==> is_error_answer(
            r,
            500,
            "Błąd uruchomienia yt-dlp: "@ + reason@,
        ),
{
    match outcome {
        CheckOutcome::Accepted => (200, VerifyPremiumResponse {
            success: true,
            is_premium: None,
            message: Some(string_from("Dane logowania poprawne (status Premium nieznany)")),
            error: None,
        }),
        CheckOutcome::Refused => error_answer(200, string_from("Nieprawidłowe dane logowania")),
        CheckOutcome::NotStarted { reason } => error_answer(
            500,
            concat("Błąd uruchomienia yt-dlp: ", reason.as_str()),
        ),
    }
}

} // verus!
