//! The account forms and the pages that need an account.

use crate::cloud::requests::{plain_request, request, Request, RequestView};
use crate::cloud::steps::{ask, asking, none, one, step_views, then_do, Step, StepView};
use crate::json::{Json, JsonModel};
use crate::text::{
    all_digits, ascii_digit, byte_count, byte_len, chars_of, is_whitespace, lowercase, outcome,
    same, to_lowercase, trim, trimmed, white_space,
};
use vstd::prelude::*;
use vstd::string::*;

verus! {

/// Where a wish to open a page leads.
#[derive(Clone, Copy, Debug, PartialEq, Eq, Structural)]
pub enum NavigationDecision {
    Open(i32),
    Authenticate { stay: i32, target: i32 },
}

/// A page number brought into the range of the pages.
pub open spec fn page_of(target: i32) -> i32 {
    if target < 0 {
        0
    } else if target > 7 {
        7
    } else {
        target
    }
}

fn clamp_page(target: i32) -> (r: i32)
    ensures
        r == page_of(target),
{
    if target < 0 {
        0
    } else if target > 7 {
        7
    } else {
        target
    }
}

/// Pages 2 to 4 are open to a signed-in user only.
pub open spec fn page_needs_account(page: i32) -> bool {
    2 <= page <= 4
}

pub fn navigation_decision(current: i32, target: i32, signed_in: bool) -> (r: NavigationDecision)
    ensures
        r == if !signed_in && page_needs_account(page_of(target)) {
            NavigationDecision::Authenticate { stay: current, target: page_of(target) }
        } else {
            NavigationDecision::Open(page_of(target))
        },
{
    let page: i32 = clamp_page(target);
    if !signed_in && 2 <= page && page <= 4 {
        NavigationDecision::Authenticate { stay: current, target: page }
    } else {
        NavigationDecision::Open(page)
    }
}

/// The page that is opened after a sign-in: the one that asked for it,
/// otherwise the one that is open.
pub fn auth_return_target(pending: Option<i32>, current: i32) -> (r: i32)
    ensures
        r == match pending {
            Some(page) => page_of(page),
            None => page_of(current),
        },
{
    match pending {
        Some(page) => clamp_page(page),
        None => clamp_page(current),
    }
}

/// A page that needs an account is opened after the sign-in that it asked for.
pub proof fn refused_page_opens_after_sign_in(current: i32, target: i32)
    requires
        page_needs_account(page_of(target)),
    ensures
        page_of(page_of(target)) == page_of(target),
{
}

/// The account forms. Mode 0 signs in, 1 registers, 2 asks for a reset, 3
/// confirms an email address and 4 sets a new password.
pub struct AuthForm {
    pub mode: i32,
    pub open: bool,
    pub busy: bool,
    pub resend_seconds: i32,
    pub email: String,
    pub password: String,
    pub password_confirm: String,
    pub token: String,
}

pub struct AuthView {
    pub mode: i32,
    pub open: bool,
    pub busy: bool,
    pub resend_seconds: i32,
    pub email: Seq<char>,
    pub password: Seq<char>,
    pub password_confirm: Seq<char>,
    pub token: Seq<char>,
}

impl View for AuthForm {
    type V = AuthView;

    open spec fn view(&self) -> AuthView {
        AuthView {
            mode: self.mode,
            open: self.open,
            busy: self.busy,
            resend_seconds: self.resend_seconds,
            email: self.email@,
            password: self.password@,
            password_confirm: self.password_confirm@,
            token: self.token@,
        }
    }
}

/// The forms after a switch to a mode: nothing secret is left, and outside the
/// two modes that wait for a code no code is being waited for.
pub open spec fn switched(form: AuthView, mode: i32) -> AuthView {
    AuthView {
        mode,
        resend_seconds: if mode < 3 {
            0
        } else {
            form.resend_seconds
        },
        password: ""@,
        password_confirm: ""@,
        token: ""@,
        ..form
    }
}

/// The steps that take the shown error and the shown notice away.
pub open spec fn quieted() -> Seq<StepView> {
    seq![StepView::Error(""@), StepView::Notice(""@)]
}

/// Takes the shown error and the shown notice away.
pub fn quiet() -> (r: Vec<Step>)
    ensures
        step_views(r@) == quieted(),
{
    let mut steps: Vec<Step> = one(Step::Error("".to_owned()));
    then_do(&mut steps, Step::Notice("".to_owned()));
    proof {
        assert(step_views(steps@) =~= quieted());
    }
    steps
}

/// Switches the forms to a mode; no message is left.
pub fn switch_auth(form: &mut AuthForm, mode: i32) -> (r: Vec<Step>)
    ensures
        final(form)@ == switched(old(form)@, mode),
        step_views(r@) == quieted(),
{
    form.mode = mode;
    if mode < 3 {
        form.resend_seconds = 0;
    }
    form.password = "".to_owned();
    form.password_confirm = "".to_owned();
    form.token = "".to_owned();
    quiet()
}

/// The forms, the page to return to and the steps after the user has been asked
/// to sign in.
pub open spec fn asked(
    form: AuthView,
    return_page: Option<i32>,
    signed_in: bool,
    target: Option<i32>,
) -> (AuthView, Option<i32>, Seq<StepView>) {
    let shown = if signed_in {
        form
    } else {
        switched(form, 0)
    };
    (
        AuthView { open: true, ..shown },
        match target {
            Some(page) => Some(page_of(page)),
            None => return_page,
        },
        if signed_in {
            Seq::empty()
        } else {
            quieted()
        },
    )
}

/// Asks the user to sign in, for the sake of the page `target` where there is
/// one.
pub fn show_auth(
    form: &mut AuthForm,
    return_page: &mut Option<i32>,
    signed_in: bool,
    target: Option<i32>,
) -> (r: Vec<Step>)
    ensures
        (final(form)@, *final(return_page), step_views(r@)) == asked(
            old(form)@,
            *old(return_page),
            signed_in,
            target,
        ),
{
    if let Some(page) = target {
        *return_page = Some(clamp_page(page));
    }
    let steps: Vec<Step> = if signed_in {
        none()
    } else {
        switch_auth(form, 0)
    };
    form.open = true;
    steps
}

/// The place of the first `c` in `s`.
pub open spec fn first_of(s: Seq<char>, c: char) -> Option<int> {
    crate::cloud::mentions::next_of(s, 0, c)
}

/// An email address: at most 254 bytes and no white space; a name, one `@`
/// and a host that has a dot, but not at its end.
pub open spec fn is_email(s: Seq<char>) -> bool {
    &&& byte_len(s) <= 254
    &&& forall|i: int| 0 <= i < s.len() ==> !white_space(#[trigger] s[i])
    &&& first_of(s, '@') matches Some(k) && {
        let host = s.subrange(k + 1, s.len() as int);
        k > 0 && host.contains('.') && !host.contains('@') && host.last() != '.'
    }
}

/// Whether a text is an email address.
pub fn email_like(s: &str) -> (r: bool)
    ensures
        r == is_email(s@),
{
    if byte_count(s) > 254 {
        return false;
    }
    let v: Vec<char> = chars_of(s);
    let mut i: usize = 0;
    while i < v.len()
        invariant
            i <= v.len(),
            v@ == s@,
            forall|j: int| 0 <= j < i ==> !white_space(#[trigger] s@[j]),
        decreases v.len() - i,
    {
        if is_whitespace(v[i]) {
            return false;
        }
        i = i + 1;
    }
    let k: usize = match crate::cloud::mentions::find_next(&v, 0, '@') {
        Some(k) => k,
        None => return false,
    };
    if k == 0 {
        return false;
    }
    let ghost host = s@.subrange(k + 1, s@.len() as int);
    let mut dot: bool = false;
    let mut j: usize = k + 1;
    while j < v.len()
        invariant
            k < j <= v.len(),
            v@ == s@,
            host == s@.subrange(k + 1, s@.len() as int),
            dot == exists|m: int| 0 <= m < j - k - 1 && #[trigger] host[m] == '.',
            forall|m: int| 0 <= m < j - k - 1 ==> #[trigger] host[m] != '@',
            first_of(s@, '@') == Some(k as int),
        decreases v.len() - j,
    {
        proof {
            assert(host[j - k - 1] == v@[j as int]);
        }
        if v[j] == '@' {
            proof {
                assert(host.contains('@'));
            }
            return false;
        }
        if v[j] == '.' {
            dot = true;
        }
        j = j + 1;
    }
    if !dot {
        proof {
            assert(!host.contains('.'));
        }
        return false;
    }
    proof {
        let m = choose|m: int| 0 <= m < host.len() && host[m] == '.';
        assert(host.contains('.'));
        assert(!host.contains('@'));
        assert(host.last() == v@[v@.len() - 1]);
    }
    v[v.len() - 1] != '.'
}

/// The address that is sent: without the space around it, in lower case.
pub open spec fn normal_email(raw: Seq<char>) -> Seq<char> {
    lowercase(trimmed(raw))
}

/// An address that has been brought into its normal form, or the error.
pub open spec fn email_outcome(email: Seq<char>) -> Result<Seq<char>, Seq<char>> {
    if is_email(email) {
        Ok(email)
    } else {
        Err("请输入有效的邮箱地址"@)
    }
}

pub fn checked_email(email: String) -> (r: Result<String, String>)
    ensures
        outcome(r) == email_outcome(email@),
{
    if email_like(email.as_str()) {
        Ok(email)
    } else {
        Err("请输入有效的邮箱地址".to_owned())
    }
}

pub fn normalized_auth_email(raw: &str) -> (r: Result<String, String>)
    ensures
        outcome(r) == email_outcome(normal_email(raw@)),
{
    let short: String = trim(raw);
    checked_email(to_lowercase(short.as_str()))
}

/// A confirmation code: six ASCII digits.
pub open spec fn is_code(s: Seq<char>) -> bool {
    s.len() == 6 && all_digits(s)
}

fn code_like(s: &str) -> (r: bool)
    ensures
        r == is_code(s@),
{
    let v: Vec<char> = chars_of(s);
    if v.len() != 6 {
        return false;
    }
    let mut i: usize = 0;
    while i < v.len()
        invariant
            i <= v.len(),
            v@ == s@,
            forall|j: int| 0 <= j < i ==> ascii_digit(#[trigger] s@[j]),
        decreases v.len() - i,
    {
        if !('0' <= v[i] && v[i] <= '9') {
            return false;
        }
        i = i + 1;
    }
    true
}

/// Why the fields of a form cannot be sent.
pub open spec fn form_fault(
    mode: i32,
    password: Seq<char>,
    confirmation: Seq<char>,
    code: Seq<char>,
) -> Option<Seq<char>> {
    if (mode == 0 || mode == 1 || mode == 4) && password.len() == 0 {
        Some("请输入密码"@)
    } else if (mode == 1 || mode == 4) && !(10 <= password.len() <= 128) {
        Some("密码需要 10 到 128 个字符"@)
    } else if (mode == 1 || mode == 4) && password != confirmation {
        Some("两次输入的密码不一致"@)
    } else if (mode == 3 || mode == 4) && !is_code(trimmed(code)) {
        Some("请输入邮件中的 6 位验证码"@)
    } else if !(0 <= mode <= 4) {
        Some("请返回登录后重试"@)
    } else {
        None
    }
}

/// The job of a mode.
pub open spec fn form_job(mode: i32) -> Seq<char> {
    if mode == 0 {
        "login"@
    } else if mode == 1 {
        "register"@
    } else if mode == 2 {
        "password-reset-request"@
    } else if mode == 3 {
        "verify-email"@
    } else {
        "password-reset-confirm"@
    }
}

/// The path of a mode.
pub open spec fn form_path(mode: i32) -> Seq<char> {
    if mode == 0 {
        "/api/auth/login"@
    } else if mode == 1 {
        "/api/auth/register"@
    } else if mode == 2 {
        "/api/auth/forgot-password"@
    } else if mode == 3 {
        "/api/auth/verify-email"@
    } else {
        "/api/auth/reset-password"@
    }
}

/// What is sent in a mode.
pub open spec fn form_body(
    mode: i32,
    email: Seq<char>,
    password: Seq<char>,
    code: Seq<char>,
) -> JsonModel {
    let address = ("email"@, JsonModel::Text(email));
    let secret = ("password"@, JsonModel::Text(password));
    let confirmation = ("token"@, JsonModel::Text(trimmed(code)));
    JsonModel::Object(
        if mode == 0 || mode == 1 {
            seq![address, secret]
        } else if mode == 2 {
            seq![address]
        } else if mode == 3 {
            seq![address, confirmation]
        } else {
            seq![address, confirmation, secret]
        },
    )
}

/// The job and the request of a form, or the error. `email` is the outcome of
/// checking the address.
pub open spec fn form_request(
    mode: i32,
    email: Result<Seq<char>, Seq<char>>,
    password: Seq<char>,
    confirmation: Seq<char>,
    code: Seq<char>,
) -> Result<(Seq<char>, RequestView), Seq<char>> {
    match email {
        Err(message) => Err(message),
        Ok(address) => match form_fault(mode, password, confirmation, code) {
            Some(message) => Err(message),
            None => Ok(
                (
                    form_job(mode),
                    plain_request(
                        "POST"@,
                        form_path(mode),
                        form_body(mode, address, password, code),
                    ),
                ),
            ),
        },
    }
}

/// The view of a job or an error message.
pub open spec fn job_outcome(r: Result<(String, Request), String>) -> Result<
    (Seq<char>, RequestView),
    Seq<char>,
> {
    match r {
        Ok(job) => Ok((job.0@, job.1@)),
        Err(e) => Err(e@),
    }
}

/// Makes the request of a form whose address has been checked.
pub fn auth_request_for(
    mode: i32,
    email: Result<String, String>,
    password: &str,
    confirmation: &str,
    code: &str,
) -> (r: Result<(String, Request), String>)
    ensures
        job_outcome(r) == form_request(mode, outcome(email), password@, confirmation@, code@),
{
    let address: String = match email {
        Ok(address) => address,
        Err(e) => return Err(e),
    };
    if (mode == 0 || mode == 1 || mode == 4) && password.is_empty() {
        return Err("请输入密码".to_owned());
    }
    if mode == 1 || mode == 4 {
        let n: usize = password.unicode_len();
        if n < 10 || n > 128 {
            return Err("密码需要 10 到 128 个字符".to_owned());
        }
        if !same(password, confirmation) {
            return Err("两次输入的密码不一致".to_owned());
        }
    }
    let short: String = trim(code);
    if (mode == 3 || mode == 4) && !code_like(short.as_str()) {
        return Err("请输入邮件中的 6 位验证码".to_owned());
    }
    if mode < 0 || mode > 4 {
        return Err("请返回登录后重试".to_owned());
    }
    let name: &'static str = if mode == 0 {
        "login"
    } else if mode == 1 {
        "register"
    } else if mode == 2 {
        "password-reset-request"
    } else if mode == 3 {
        "verify-email"
    } else {
        "password-reset-confirm"
    };
    let path: &'static str = if mode == 0 {
        "/api/auth/login"
    } else if mode == 1 {
        "/api/auth/register"
    } else if mode == 2 {
        "/api/auth/forgot-password"
    } else if mode == 3 {
        "/api/auth/verify-email"
    } else {
        "/api/auth/reset-password"
    };
    let mut fields: Vec<(String, Json)> = Vec::new();
    fields.push(("email".to_owned(), Json::from_text(address.as_str())));
    if mode == 3 || mode == 4 {
        fields.push(("token".to_owned(), Json::from_text(short.as_str())));
    }
    if mode == 0 || mode == 1 || mode == 4 {
        fields.push(("password".to_owned(), Json::from_text(password)));
    }
    let body: Json = Json::from_members(fields);
    proof {
        assert(body@->Object_0 =~= form_body(mode, address@, password@, code@)->Object_0);
    }
    Ok((name.to_owned(), request("POST", path, body)))
}

/// Makes the request of a form.
pub fn auth_request(
    mode: i32,
    email: &str,
    password: &str,
    confirmation: &str,
    code: &str,
) -> (r: Result<(String, Request), String>)
    ensures
        job_outcome(r) == form_request(
            mode,
            email_outcome(normal_email(email@)),
            password@,
            confirmation@,
            code@,
        ),
{
    auth_request_for(mode, normalized_auth_email(email), password, confirmation, code)
}

/// What sending a form does: the forms after it and the steps to take. `email`
/// is the outcome of checking the address.
pub open spec fn submitted(form: AuthView, email: Result<Seq<char>, Seq<char>>) -> (
    AuthView,
    Seq<StepView>,
) {
    if form.busy {
        (form, Seq::empty())
    } else {
        match form_request(form.mode, email, form.password, form.password_confirm, form.token) {
            Ok(job) => (
                AuthView { email: job.1.body.text("email"@), ..form },
                seq![StepView::Notice(""@), StepView::Job(job.0, job.1)],
            ),
            Err(message) => (form, seq![StepView::Notice(""@), StepView::Error(message)]),
        }
    }
}

fn unnoticed(then: Step) -> (r: Vec<Step>)
    ensures
        step_views(r@) == seq![StepView::Notice(""@), then@],
{
    let mut steps: Vec<Step> = one(Step::Notice("".to_owned()));
    let ghost last = then@;
    then_do(&mut steps, then);
    proof {
        assert(step_views(steps@) =~= seq![StepView::Notice(""@), last]);
    }
    steps
}

/// Sends the form whose address has been checked.
pub fn submit_auth_for(form: &mut AuthForm, email: Result<String, String>) -> (r: Vec<Step>)
    ensures
        (final(form)@, step_views(r@)) == submitted(old(form)@, outcome(email)),
{
    if form.busy {
        return none();
    }
    match auth_request_for(
        form.mode,
        email,
        form.password.as_str(),
        form.password_confirm.as_str(),
        form.token.as_str(),
    ) {
        Ok(job) => {
            form.email = job.1.body.text("email");
            unnoticed(Step::Job(job.0, job.1))
        },
        Err(e) => unnoticed(Step::Error(e)),
    }
}

/// Sends the form.
pub fn submit_auth(form: &mut AuthForm) -> (r: Vec<Step>)
    ensures
        (final(form)@, step_views(r@)) == submitted(
            old(form)@,
            email_outcome(normal_email(old(form)@.email)),
        ),
{
    let email: Result<String, String> = normalized_auth_email(form.email.as_str());
    submit_auth_for(form, email)
}

/// What asking for a code does: the forms after it and the steps to take.
pub open spec fn code_asked(form: AuthView, mode: i32, email: Result<Seq<char>, Seq<char>>) -> (
    AuthView,
    Seq<StepView>,
) {
    if form.busy || form.resend_seconds > 0 {
        (form, Seq::empty())
    } else {
        match email {
            Err(message) => (form, seq![StepView::Error(message)]),
            Ok(address) => (
                AuthView { email: address, ..form },
                seq![
                    StepView::Notice(""@),
                    ask(
                        if mode == 4 {
                            "password-reset-request"@
                        } else {
                            "verification-resend"@
                        },
                        "POST"@,
                        if mode == 4 {
                            "/api/auth/forgot-password"@
                        } else {
                            "/api/auth/resend-verification"@
                        },
                        JsonModel::Object(seq![("email"@, JsonModel::Text(address))]),
                    ),
                ],
            ),
        }
    }
}

/// Asks for a code for an address that has been checked.
pub fn send_auth_code_for(form: &mut AuthForm, mode: i32, email: Result<String, String>) -> (r: Vec<
    Step,
>)
    ensures
        (final(form)@, step_views(r@)) == code_asked(old(form)@, mode, outcome(email)),
{
    if form.busy || form.resend_seconds > 0 {
        return none();
    }
    match email {
        Err(e) => one(Step::Error(e)),
        Ok(address) => {
            let mut fields: Vec<(String, Json)> = Vec::new();
            fields.push(("email".to_owned(), Json::from_text(address.as_str())));
            let body: Json = Json::from_members(fields);
            proof {
                assert(body@->Object_0 =~= seq![("email"@, JsonModel::Text(address@))]);
            }
            form.email = address;
            if mode == 4 {
                unnoticed(
                    asking("password-reset-request", "POST", "/api/auth/forgot-password", body),
                )
            } else {
                unnoticed(
                    asking("verification-resend", "POST", "/api/auth/resend-verification", body),
                )
            }
        },
    }
}

/// Asks for a code.
pub fn send_auth_code(form: &mut AuthForm, mode: i32) -> (r: Vec<Step>)
    ensures
        (final(form)@, step_views(r@)) == code_asked(
            old(form)@,
            mode,
            email_outcome(normal_email(old(form)@.email)),
        ),
{
    let email: Result<String, String> = normalized_auth_email(form.email.as_str());
    send_auth_code_for(form, mode, email)
}

/// The form once one second has passed.
pub open spec fn second_passed(form: AuthView) -> AuthView {
    AuthView {
        resend_seconds: if form.resend_seconds > 0 {
            (form.resend_seconds - 1) as i32
        } else {
            0
        },
        ..form
    }
}

/// One second has passed.
pub fn auth_countdown(form: &mut AuthForm)
    ensures
        final(form)@ == second_passed(old(form)@),
        final(form)@ == (AuthView {
            resend_seconds: if old(form).resend_seconds > 0 {
                (old(form).resend_seconds - 1) as i32
            } else {
                0
            },
            ..old(form)@
        }),
{
    form.resend_seconds = if form.resend_seconds > 0 {
        form.resend_seconds - 1
    } else {
        0
    };
}

/// What is told when the service has said what became of its email; `mode` is
/// that of the forms.
pub open spec fn email_told(mode: i32, value: JsonModel) -> StepView {
    let delivery = value.text("email_delivery"@);
    if delivery == "not_configured"@ {
        StepView::Error("邮件服务尚未配置，请联系管理员"@)
    } else if delivery == "failed"@ {
        StepView::Error("邮件发送失败，请稍后重新发送"@)
    } else if delivery == "sent"@ {
        StepView::Notice("验证码已发送，30 分钟内有效。重新发送后请使用最新验证码。"@)
    } else if mode == 4 {
        StepView::Notice("若该邮箱已注册，你将收到重置验证码，请检查收件箱和垃圾邮件。"@)
    } else {
        StepView::Notice("若该邮箱尚未验证，你将收到验证码，请检查收件箱和垃圾邮件。"@)
    }
}

/// Says what became of the email.
pub fn email_notice(form: &AuthForm, value: &Json) -> (r: Step)
    ensures
        r@ == email_told(form@.mode, value@),
{
    let delivery: String = value.text("email_delivery");
    let d: &str = delivery.as_str();
    if same(d, "not_configured") {
        Step::Error("邮件服务尚未配置，请联系管理员".to_owned())
    } else if same(d, "failed") {
        Step::Error("邮件发送失败，请稍后重新发送".to_owned())
    } else if same(d, "sent") {
        Step::Notice("验证码已发送，30 分钟内有效。重新发送后请使用最新验证码。".to_owned())
    } else if form.mode == 4 {
        Step::Notice("若该邮箱已注册，你将收到重置验证码，请检查收件箱和垃圾邮件。".to_owned())
    } else {
        Step::Notice("若该邮箱尚未验证，你将收到验证码，请检查收件箱和垃圾邮件。".to_owned())
    }
}

/// The address in a request is the checked one, and the code is sent with its
/// leading zeros: as the six digits that were typed.
pub proof fn codes_are_sent_as_typed(
    mode: i32,
    email: Seq<char>,
    password: Seq<char>,
    confirmation: Seq<char>,
    code: Seq<char>,
)
    requires
        mode == 3 || mode == 4,
    ensures
        form_request(mode, Ok(email), password, confirmation, code) matches Ok((_, req)) ==> {
            &&& req.body.text("email"@) == email
            &&& req.body.text("token"@) == trimmed(code)
            &&& is_code(trimmed(code))
        },
{
    reveal_strlit("email");
    reveal_strlit("token");
    reveal_strlit("password");
    if form_fault(mode, password, confirmation, code) is None {
        let body = form_body(mode, email, password, code);
        let entries = body->Object_0;
        reveal_with_fuel(crate::json::lookup, 3);
        assert("email"@ != "token"@) by {
            assert("email"@[0] != "token"@[0]);
        }
        assert(entries.drop_first()[0] == entries[1]);
    }
}

} // verus!
