//! Sign-up, sign-in and token messages, with their validation rules.
use vstd::prelude::*;
use crate::error::{FieldError, error_views};
use crate::text::owned;

verus! {

/// Whether the `validator` crate accepts the text as an e-mail address.
pub uninterp spec fn is_email(s: Seq<char>) -> bool;

/// Checks an e-mail address (`validator::ValidateEmail::validate_email`).
/// The result is named `is_email` of the text; `validator` refuses every
/// address without `@`.
#[verifier::external_body]
pub(crate) fn validate_email(s: &str) -> (b: bool)
    ensures
        b == is_email(s@),
        b ==> s@.contains('@'),
{
    validator::ValidateEmail::validate_email(&s)
}

/// The rules of a sign-up form that `password` and `email` break, in field
/// order: a malformed e-mail address, then a confirmation that differs from
/// the password.
pub open spec fn sign_up_errors(email: Seq<char>, password: Seq<char>, confirm: Seq<char>) -> Seq<
    (Seq<char>, Seq<char>),
> {
    let e1: Seq<(Seq<char>, Seq<char>)> = if is_email(email) {
        Seq::empty()
    } else {
        seq![("email"@, "email"@)]
    };
    if password == confirm {
        e1
    } else {
        e1.push(("confirm_password"@, "must_match"@))
    }
}

/// With a valid e-mail address, a sign-up form passes exactly when the
/// confirmation equals the password; any other confirmation (a prefix of
/// the password, the empty text) is refused with the one error
/// `(confirm_password, must_match)`, last whatever the address. A malformed
/// address is reported first; a sign-in form passes exactly with a valid
/// address.
pub proof fn lemma_confirmation_must_match(email: Seq<char>, password: Seq<char>, confirm: Seq<char>)
    ensures
        is_email(email) ==> (sign_up_errors(email, password, confirm).len() == 0 <==> password
            == confirm),
        password != confirm ==> sign_up_errors(email, password, confirm).last() == (
            "confirm_password"@,
            "must_match"@,
        ),
        is_email(email) && password != confirm ==> sign_up_errors(email, password, confirm) == seq![
            ("confirm_password"@, "must_match"@),
        ],
        !is_email(email) ==> sign_up_errors(email, password, confirm).len() > 0 && sign_up_errors(
            email,
            password,
            confirm,
        )[0] == ("email"@, "email"@),
        sign_in_errors(email).len() == 0 <==> is_email(email),
{
    if is_email(email) && password != confirm {
        assert(sign_up_errors(email, password, confirm) =~= seq![("confirm_password"@, "must_match"@)]);
    }
}

/// The rules of a sign-in form that `email` breaks.
pub open spec fn sign_in_errors(email: Seq<char>) -> Seq<(Seq<char>, Seq<char>)> {
    if is_email(email) {
        Seq::empty()
    } else {
        seq![("email"@, "email"@)]
    }
}

fn field_error(field: &str, code: &str) -> (e: FieldError)
    ensures
        e@ == (field@, code@),
{
    FieldError { field: owned(field), code: owned(code) }
}

fn check_sign_up(email: &String, password: &String, confirm: &String) -> (r: Result<(), Vec<FieldError>>)
    ensures
        match r {
            Ok(()) => sign_up_errors(email@, password@, confirm@).len() == 0,
            Err(errs) => errs.len() > 0 && error_views(errs@) == sign_up_errors(email@, password@, confirm@),
        },
{
    let mut errs: Vec<FieldError> = Vec::new();
    let ghost e1: Seq<(Seq<char>, Seq<char>)> = if is_email(email@) {
        Seq::empty()
    } else {
        seq![("email"@, "email"@)]
    };
    if !validate_email(email.as_str()) {
        errs.push(field_error("email", "email"));
    }
    assert(error_views(errs@) =~= e1);
    if !(*password == *confirm) {
        let ghost before = errs@;
        errs.push(field_error("confirm_password", "must_match"));
        assert(error_views(errs@) =~= error_views(before).push(("confirm_password"@, "must_match"@)));
    }
    assert(error_views(errs@) =~= sign_up_errors(email@, password@, confirm@));
    if errs.len() == 0 {
        Ok(())
    } else {
        Err(errs)
    }
}

/// A request to create an account.
#[derive(Debug)]
pub struct SignUpRequestDto {
    pub email: String,
    pub password: String,
    pub confirm_password: String,
}

impl SignUpRequestDto {
    /// Checks the form: the e-mail address must be valid and the
    /// confirmation must equal the password. Reports every broken rule.
    pub fn validate(&self) -> (r: Result<(), Vec<FieldError>>)
        ensures
            match r {
                Ok(()) => sign_up_errors(self.email@, self.password@, self.confirm_password@).len()
                    == 0,
                Err(errs) => errs.len() > 0 && error_views(errs@) == sign_up_errors(
                    self.email@,
                    self.password@,
                    self.confirm_password@,
                ),
            },
    {
        check_sign_up(&self.email, &self.password, &self.confirm_password)
    }
}

/// The account data echoed back after a sign-up, under the same rules.
#[derive(Debug)]
pub struct SignUpResponseDto {
    pub email: String,
    pub password: String,
    pub confirm_password: String,
}

impl SignUpResponseDto {
    /// Checks the data under the rules of the sign-up form.
    pub fn validate(&self) -> (r: Result<(), Vec<FieldError>>)
        ensures
            match r {
                Ok(()) => sign_up_errors(self.email@, self.password@, self.confirm_password@).len()
                    == 0,
                Err(errs) => errs.len() > 0 && error_views(errs@) == sign_up_errors(
                    self.email@,
                    self.password@,
                    self.confirm_password@,
                ),
            },
    {
        check_sign_up(&self.email, &self.password, &self.confirm_password)
    }
}

/// A request to sign in.
#[derive(Debug)]
pub struct SignInRequestDto {
    pub email: String,
    pub password: String,
}

impl SignInRequestDto {
    /// Checks the form: the e-mail address must be valid.
    pub fn validate(&self) -> (r: Result<(), Vec<FieldError>>)
        ensures
            match r {
                Ok(()) => sign_in_errors(self.email@).len() == 0,
                Err(errs) => errs.len() > 0 && error_views(errs@) == sign_in_errors(self.email@),
            },
    {
        if validate_email(self.email.as_str()) {
            Ok(())
        } else {
            let mut errs: Vec<FieldError> = Vec::new();
            errs.push(field_error("email", "email"));
            assert(error_views(errs@) =~= sign_in_errors(self.email@));
            Err(errs)
        }
    }
}

/// The answer to a successful sign-in.
#[derive(Debug)]
pub struct SignInResponseDto {
    pub access_token: String,
}

/// A request to check an access token.
#[derive(Debug)]
pub struct ValidateTokenRequestDto {
    pub access_token: String,
}

/// Whether an access token is valid.
#[derive(Debug)]
pub struct ValidateTokenResponseDto {
    pub is_valid: bool,
}

/// A token is valid when it verifies against the server's secret and names
/// a user that exists.
pub fn token_is_valid(verified: bool, user_exists: bool) -> (r: ValidateTokenResponseDto)
    ensures
        r.is_valid == (verified && user_exists),
{
    ValidateTokenResponseDto { is_valid: verified && user_exists }
}

} // verus!
