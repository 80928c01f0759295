//! Signing in, the account, the teams and the pages, seen from outside.

use crate::cloud::account::{
    ledger_rows, order_rows, payment_url, plan_rows, wallet_answered, AccountView,
};
use crate::cloud::assets::{asset_rows, is_listed};
use crate::cloud::auth::{
    asked, code_asked, email_outcome, form_request, is_email, second_passed, submitted, switched,
    AuthView,
};
use crate::cloud::generation::QuoteView;
use crate::cloud::mentions::next_of;
use crate::cloud::picker::PickerView;
use crate::cloud::session::{change_steps, navigation_steps, page_steps};
use crate::cloud::steps::{fetch, Panel, StepView};
use crate::cloud::teams::{assets_refreshed, member_rows, team_of, teams_answered, TeamView};
use crate::json::JsonModel;
use crate::lists::{kept, kept_satisfies};
use crate::text::{
    all_digits, contains_text, has_prefix, lowercase, signed_decimal, trimmed, white_space,
};
use crate::urls::url_parsed;
use vstd::prelude::*;

verus! {

/// A form of the account asks for what it is for: signing in and registering
/// with the address and the password, a forgotten password with the address
/// alone, a confirmation with the code, a new password with the code and the
/// password.
pub proof fn forms_ask_for_what_they_are_for(
    email: Seq<char>,
    password: Seq<char>,
    again: Seq<char>,
    code: Seq<char>,
)
    requires
        10 <= password.len() <= 128,
        again == password,
        trimmed(code).len() == 6,
        all_digits(trimmed(code)),
    ensures
        ({
            let address = ("email"@, JsonModel::Text(email));
            let secret = ("password"@, JsonModel::Text(password));
            let proof_of = ("token"@, JsonModel::Text(trimmed(code)));
            let sign_in = form_request(0, Ok(email), password, again, code);
            let register = form_request(1, Ok(email), password, again, code);
            let forgot = form_request(2, Ok(email), password, again, code);
            let confirm = form_request(3, Ok(email), password, again, code);
            let reset = form_request(4, Ok(email), password, again, code);
            &&& sign_in matches Ok((name, r)) && name == "login"@ && r.path == "/api/auth/login"@
                && r.method == "POST"@ && r.body == JsonModel::Object(seq![address, secret])
            &&& register matches Ok((name, r)) && name == "register"@ && r.path
                == "/api/auth/register"@ && r.body == JsonModel::Object(seq![address, secret])
            &&& forgot matches Ok((name, r)) && name == "password-reset-request"@ && r.path
                == "/api/auth/forgot-password"@ && r.body == JsonModel::Object(seq![address])
            &&& confirm matches Ok((name, r)) && name == "verify-email"@ && r.path
                == "/api/auth/verify-email"@ && r.body == JsonModel::Object(
                seq![address, proof_of],
            )
            &&& reset matches Ok((name, r)) && name == "password-reset-confirm"@ && r.path
                == "/api/auth/reset-password"@ && r.body == JsonModel::Object(
                seq![address, proof_of, secret],
            )
        }),
{
}

/// A form that is filled in wrongly asks for nothing: a password that is
/// missing; a new one that is too short, too long or typed differently the
/// second time; a code that is not six digits; an address that is none.
pub proof fn wrong_forms_are_refused(
    mode: i32,
    email: Seq<char>,
    password: Seq<char>,
    again: Seq<char>,
    code: Seq<char>,
    message: Seq<char>,
)
    ensures
        ({
            let r = form_request(mode, Ok(email), password, again, code);
            &&& form_request(mode, Err(message), password, again, code) == Err::<
                (Seq<char>, crate::cloud::requests::RequestView),
                Seq<char>,
            >(message)
            &&& (mode == 0 || mode == 1 || mode == 4) && password.len() == 0 ==> r is Err
            &&& (mode == 1 || mode == 4) && (password.len() < 10 || password.len() > 128
                || password != again) ==> r is Err
            &&& (mode == 3 || mode == 4) && !(trimmed(code).len() == 6 && all_digits(
                trimmed(code),
            )) ==> r is Err
            &&& mode < 0 || mode > 4 ==> r is Err
            &&& mode == 0 && password.len() > 0 ==> r is Ok
            &&& mode == 2 ==> r is Ok
        }),
{
}

/// Nothing is sent twice: a form that waits for its answer sends nothing, and
/// a code is not asked for again before the time is up. A code for a new
/// password is asked for in its own place.
pub proof fn forms_wait_for_their_answer(form: AuthView, mode: i32, email: Seq<char>)
    ensures
        ({
            let (now, steps) = code_asked(form, mode, Ok(email));
            &&& form.busy ==> submitted(form, Ok(email)) == (form, Seq::<StepView>::empty())
            &&& form.busy || form.resend_seconds > 0 ==> (now, steps) == (
                form,
                Seq::<StepView>::empty(),
            )
            &&& !form.busy && form.resend_seconds <= 0 ==> now.email == email && (steps.last()
                matches StepView::Job(name, r) && r.method == "POST"@ && r.body
                == JsonModel::Object(seq![("email"@, JsonModel::Text(email))]) && r.path == (
            if mode == 4 {
                "/api/auth/forgot-password"@
            } else {
                "/api/auth/resend-verification"@
            }))
        }),
{
}

/// Going to another form forgets the passwords and the code, and keeps the
/// address. Asking to sign in opens the first form, and remembers the page to
/// come back to.
pub proof fn forms_forget_secrets(
    form: AuthView,
    mode: i32,
    page: Option<i32>,
    target: i32,
)
    requires
        0 <= target <= 7,
    ensures
        ({
            let other = switched(form, mode);
            let (shown, back, steps) = asked(form, page, false, Some(target));
            &&& other.mode == mode && other.email == form.email
            &&& other.password.len() == 0 && other.password_confirm.len() == 0 && other.token.len()
                == 0
            &&& shown.open && shown.mode == 0 && shown.password.len() == 0
            &&& back == Some(target)
            &&& asked(form, page, false, None).1 == page
        }),
{
    reveal_strlit("");
}

/// An address has a name, one at sign and a domain with a dot that does not
/// end it, and no blanks.
pub proof fn addresses_have_a_name_and_a_domain(s: Seq<char>, i: int)
    requires
        is_email(s),
        0 <= i < s.len(),
    ensures
        s.contains('@'),
        s[0] != '@',
        s.contains('.'),
        s.last() != '.',
        s.last() != '@',
        !white_space(s[i]),
        email_outcome(s) == Ok::<Seq<char>, Seq<char>>(s),
{
    found_next(s, 0, '@');
    let k = next_of(s, 0, '@')->0;
    let host = s.subrange(k + 1, s.len() as int);
    let j = choose|j: int| 0 <= j < host.len() && host[j] == '.';
    assert(s[k + 1 + j] == '.');
    assert(host.last() == s.last());
    assert(host.contains(host.last()));
}

proof fn found_next(s: Seq<char>, from: int, c: char)
    requires
        0 <= from <= s.len(),
    ensures
        next_of(s, from, c) matches Some(k) ==> from <= k < s.len() && s[k] == c && forall|j: int|
            from <= j < k ==> s[j] != c,
    decreases s.len() - from,
{
    if from < s.len() && s[from] != c {
        found_next(s, from + 1, c);
    }
}

/// Text without an at sign is no address.
pub proof fn plain_words_are_no_address(s: Seq<char>)
    requires
        !s.contains('@'),
    ensures
        !is_email(s),
        email_outcome(s) is Err,
{
    found_next(s, 0, '@');
}

/// The pages of the account are for those who are signed in: anyone else is
/// asked to sign in and comes back to the page. Every other page opens.
pub proof fn pages_of_the_account_need_signing_in(
    current: i32,
    target: i32,
    error: Seq<char>,
)
    requires
        0 <= target <= 7,
    ensures
        ({
            let out = navigation_steps(current, target, false, error).last();
            let inside = navigation_steps(current, target, true, error).last();
            &&& inside == StepView::LoadPage(target)
            &&& target == 2 || target == 3 || target == 4 ==> out == StepView::ShowAuth(
                Some(target),
            )
            &&& target != 2 && target != 3 && target != 4 ==> out == StepView::LoadPage(target)
        }),
{
}

/// A page that opens brings what it shows: the tasks and the models, the
/// teams, the plans with the balance and the orders, or the library.
pub proof fn pages_bring_what_they_show(signed_in: bool)
    ensures
        page_steps(1, true).last() == fetch("tasks"@, "/api/generation/tasks"@),
        page_steps(1, true).contains(StepView::RefreshModels),
        page_steps(1, false) == seq![StepView::Page(1)],
        page_steps(2, signed_in).last() == fetch("teams"@, "/api/teams"@),
        page_steps(3, signed_in).contains(fetch("plans"@, "/api/credit-plans"@)),
        page_steps(3, signed_in).contains(fetch("wallet"@, "/api/wallet"@)),
        page_steps(3, signed_in).contains(fetch("orders"@, "/api/orders"@)),
        page_steps(5, signed_in).last() matches StepView::Job(name, r) && name == "personal"@
            && r.path == "local:library-"@ + "list"@,
        forall|page: i32| (#[trigger] page_steps(page, signed_in))[0] == StepView::Page(page),
{
    assert(page_steps(1, true)[1] is RefreshModels);
    assert(page_steps(3, signed_in)[1] == fetch("plans"@, "/api/credit-plans"@));
    assert(page_steps(3, signed_in)[2] == fetch("wallet"@, "/api/wallet"@));
    assert(page_steps(3, signed_in)[3] == fetch("orders"@, "/api/orders"@));
}

/// The fields are told apart.
proof fn fields_differ()
    ensures
        "mode"@.len() == 4 && "mode"@[0] == 'm',
        "team"@.len() == 4 && "team"@[0] == 't',
        "model"@.len() == 5 && "model"@[0] == 'm',
        "ratio"@.len() == 5 && "ratio"@[0] == 'r',
        "prompt"@.len() == 6,
        "quality"@.len() == 7,
        "duration"@.len() == 8 && "duration"@[0] == 'd',
        "quantity"@.len() == 8 && "quantity"@[0] == 'q',
        "personal-"@.len() == 9,
        "resolution"@.len() == 10,
        "prompt-cursor"@.len() == 13,
        "generate-audio"@.len() == 14 && "generate-audio"@[0] == 'g',
        "reduced-motion"@.len() == 14 && "reduced-motion"@[0] == 'r',
        "personal-search"@.len() == 15,
{
    reveal_strlit("mode");
    reveal_strlit("model");
    reveal_strlit("prompt");
    reveal_strlit("ratio");
    reveal_strlit("resolution");
    reveal_strlit("quality");
    reveal_strlit("duration");
    reveal_strlit("generate-audio");
    reveal_strlit("quantity");
    reveal_strlit("prompt-cursor");
    reveal_strlit("reduced-motion");
    reveal_strlit("team");
    reveal_strlit("personal-search");
    reveal_strlit("personal-");
}

/// Whatever the price depends on asks for a new quote when it changes; another
/// model, or another kind, brings its own choices first.
pub proof fn priced_fields_are_quoted_again(field: Seq<char>)
    requires
        field == "prompt"@ || field == "ratio"@ || field == "resolution"@ || field == "quality"@
            || field == "duration"@ || field == "generate-audio"@ || field == "quantity"@ || field
            == "mode"@ || field == "model"@,
    ensures
        ({
            let steps = change_steps(field, false, true, false, 0);
            &&& steps.contains(StepView::RefreshQuote)
            &&& field == "mode"@ || field == "model"@ ==> steps[0] is UpdateOptions
            &&& !change_steps(field, false, false, false, 0).contains(StepView::RefreshQuote)
            &&& change_steps(field, true, true, false, 0).len() == 0
        }),
{
    fields_differ();
    reveal_strlit("personal-");
    reveal_strlit("asset-picker-personal-filter");
    reveal_strlit("asset-search");
    reveal_strlit("asset-filter");
    reveal_strlit("asset-picker-team-search");
    reveal_strlit("asset-picker-team-filter");
    reveal_strlit("asset-picker-purpose");
    assert("asset-picker-personal-filter"@.len() == 28);
    assert("asset-search"@.len() == 12);
    assert("asset-filter"@.len() == 12);
    assert("asset-picker-team-search"@.len() == 24);
    assert("asset-picker-team-filter"@.len() == 24);
    assert("asset-picker-purpose"@.len() == 20);
    if has_prefix(field, "personal-"@) {
        assert("personal-"@[0] == 'p');
        assert(field.subrange(0, 9)[0] == field[0]);
        reveal_strlit("resolution");
        reveal_strlit("generate-audio");
        assert("resolution"@[0] == 'r');
        assert("generate-audio"@[0] == 'g');
    }
    let steps = change_steps(field, false, true, false, 0);
    assert(steps.last() == StepView::RefreshQuote);
    let quiet_steps = change_steps(field, false, false, false, 0);
    assert forall|i: int| 0 <= i < quiet_steps.len() implies quiet_steps[i]
        != StepView::RefreshQuote by {}
}

/// The balance that is shown is what can be spent, the other number what is
/// held back; a quote is out of reach exactly where it costs more than can be
/// spent.
pub proof fn balances_are_what_can_be_spent(
    account: AccountView,
    quote: QuoteView,
    value: JsonModel,
    available: i64,
    held: i64,
)
    requires
        value.at("available_credits"@).as_i64() == Some(available),
        value.at("held_credits"@).as_i64() == Some(held),
    ensures
        ({
            let (now, quoted) = wallet_answered(account, quote, value);
            &&& now.credits == Some(available)
            &&& now.balance == signed_decimal(available as int)
            &&& now.frozen == signed_decimal(held as int)
            &&& quote.credits matches Some(price) ==> (quoted.insufficient <==> available < price)
            &&& quoted.credits == quote.credits && quoted.id == quote.id
            &&& now.token == account.token && now.email == account.email
        }),
{
}

/// The kinds of changes are told apart.
proof fn changes_differ()
    ensures
        "hold"@.len() == 4 && "hold"@[0] == 'h',
        "paid"@.len() == 4 && "paid"@[0] == 'p',
        "owner"@.len() == 5,
        "closed"@.len() == 6,
        "capture"@.len() == 7 && "capture"@[0] == 'c',
        "release"@.len() == 7 && "release"@[0] == 'r',
        "recharge"@.len() == 8,
{
    reveal_strlit("hold");
    reveal_strlit("capture");
    reveal_strlit("release");
    reveal_strlit("recharge");
    reveal_strlit("paid");
    reveal_strlit("closed");
    reveal_strlit("owner");
}

/// The ledger has a line for every change, in order, with what it was for.
pub proof fn ledgers_name_every_change(value: JsonModel, i: int)
    requires
        0 <= i < value.list("ledger"@).len(),
    ensures
        ({
            let v = value.list("ledger"@)[i];
            let line = ledger_rows(value)[i];
            &&& ledger_rows(value).len() == value.list("ledger"@).len()
            &&& line.id == v.text("id"@) && line.detail == v.text("reference_id"@)
            &&& v.text("kind"@) == "hold"@ ==> line.title == "生成预扣"@
            &&& v.text("kind"@) == "capture"@ ==> line.title == "生成消费"@
            &&& v.text("kind"@) == "release"@ ==> line.title == "退回积分"@
            &&& v.text("kind"@) == "recharge"@ ==> line.title == "充值到账"@
        }),
{
    changes_differ();
}

/// An order is shown paid where it is paid, closed where it is closed, and
/// waiting otherwise, with its own amount; a plan with its own price.
pub proof fn orders_and_plans_keep_their_amounts(
    orders: Seq<JsonModel>,
    amounts: Seq<String>,
    i: int,
)
    requires
        0 <= i < orders.len(),
        amounts.len() == orders.len(),
    ensures
        ({
            let v = orders[i];
            let line = order_rows(orders, amounts)[i];
            let plan = plan_rows(orders, amounts)[i];
            &&& line.id == v.text("id"@) && line.value == amounts[i]@
            &&& v.text("status"@) == "paid"@ ==> line.detail == "已到账"@
            &&& v.text("status"@) == "closed"@ ==> line.detail == "已关闭"@
            &&& v.text("status"@) != "paid"@ && v.text("status"@) != "closed"@ ==> line.detail
                == "等待支付"@
            &&& plan.id == v.text("id"@) && plan.name == v.text("name"@) && plan.price
                == amounts[i]@
        }),
{
    changes_differ();
}

/// A page that is opened to pay is one of the payment service, over a secure
/// connection.
pub proof fn payments_go_to_the_payment_service(value: JsonModel, page: Seq<char>)
    requires
        payment_url(value) == Some(page),
    ensures
        value.at("payment_action"@).at("url"@) == JsonModel::Text(page),
        url_parsed(page) matches Some(u) && u.scheme == "https"@ && (u.host == Some(
            "openapi.alipay.com"@,
        ) || u.host == Some("openapi-sandbox.dl.alipaydev.com"@)),
{
}

/// The members of a team are listed each, the one who made it as such.
pub proof fn members_are_listed(value: JsonModel, i: int)
    requires
        0 <= i < crate::cloud::requests::items_of(value).len(),
    ensures
        ({
            let v = crate::cloud::requests::items_of(value)[i];
            let line = member_rows(value)[i];
            &&& line.id == v.text("id"@) && line.title == v.text("email"@)
            &&& v.text("role"@) == "owner"@ ==> line.value == "创建者"@
            &&& v.text("role"@) != "owner"@ ==> line.value == "成员"@
        }),
{
}

/// The first team is opened when the teams arrive, with the rights that it
/// gives, and its files are asked for.
pub proof fn teams_open_the_first(page: TeamView, value: JsonModel)
    requires
        crate::cloud::requests::items_of(value).len() > 0,
    ensures
        ({
            let (now, steps) = teams_answered(page, value);
            let teams = crate::cloud::requests::items_of(value);
            &&& now.teams == teams && now.index == 0
            &&& team_of(now) == teams[0].text("id"@)
            &&& now.owner <==> teams[0].text("role"@) == "owner"@
            &&& now.names.len() == teams.len() && now.names[0] == teams[0].text("name"@)
            &&& steps == seq![StepView::RefreshAssets]
        }),
{
}

/// The files of a team are asked for by its name, those in the bin where the
/// bin is open and the others where it is not.
pub proof fn team_files_are_asked_for(page: TeamView)
    requires
        team_of(page).len() > 0,
    ensures
        assets_refreshed(page, true).1.last() == fetch(
            "assets"@,
            "/api/teams/"@ + team_of(page) + "/assets?trash="@ + if page.trash_open {
                "true"@
            } else {
                "false"@
            },
        ),
        assets_refreshed(page, false) == (page, Seq::<StepView>::empty()),
{
}

/// The files of a team that are shown are of the medium that is chosen, and
/// their names hold what is searched for.
pub proof fn team_files_pass_the_filter(
    picker: PickerView,
    page: TeamView,
    local: Map<Seq<char>, Seq<char>>,
    mode: i32,
    i: int,
)
    requires
        !picker.open,
        0 <= i < asset_rows(picker, page, local, mode).len(),
    ensures
        ({
            let shown = kept(page.assets, is_listed(picker, page, mode));
            let v = shown[i];
            let row = asset_rows(picker, page, local, mode)[i];
            &&& page.assets.contains(v)
            &&& row.id == v.text("id"@) && row.name == v.text("filename"@)
            &&& contains_text(lowercase(v.text("filename"@)), lowercase(page.search))
            &&& page.filter == 1 ==> has_prefix(v.text("content_type"@), "image"@)
            &&& page.filter == 2 ==> has_prefix(v.text("content_type"@), "video"@)
            &&& page.filter == 3 ==> has_prefix(v.text("content_type"@), "audio"@)
        }),
{
    let p = is_listed(picker, page, mode);
    kept_satisfies(page.assets, p);
    let shown = kept(page.assets, p);
    assert(p(shown[i]));
    kept_comes_from(page.assets, p, i);
}

proof fn kept_comes_from(v: Seq<JsonModel>, p: spec_fn(JsonModel) -> bool, i: int)
    requires
        0 <= i < kept(v, p).len(),
    ensures
        v.contains(kept(v, p)[i]),
    decreases v.len(),
{
    if v.len() > 0 {
        let before = kept(v.drop_last(), p);
        if i < before.len() {
            kept_comes_from(v.drop_last(), p, i);
            let k = choose|k: int| 0 <= k < v.drop_last().len() && v.drop_last()[k] == before[i];
            assert(v[k] == before[i]);
        } else {
            assert(v[v.len() - 1] == kept(v, p)[i]);
        }
    }
}

/// A file of a team that the filters let through is shown.
pub proof fn team_files_that_pass_are_shown(
    picker: PickerView,
    page: TeamView,
    mode: i32,
    i: int,
)
    requires
        !picker.open,
        0 <= i < page.assets.len(),
        contains_text(lowercase(page.assets[i].text("filename"@)), lowercase(page.search)),
        page.filter == 0 || (page.filter == 1 && has_prefix(
            page.assets[i].text("content_type"@),
            "image"@,
        )) || (page.filter == 2 && has_prefix(page.assets[i].text("content_type"@), "video"@)) || (
        page.filter == 3 && has_prefix(page.assets[i].text("content_type"@), "audio"@)),
    ensures
        kept(page.assets, is_listed(picker, page, mode)).contains(page.assets[i]),
{
    let p = is_listed(picker, page, mode);
    assert(p(page.assets[i]));
    satisfying_is_kept(page.assets, p, i);
}

proof fn satisfying_is_kept(v: Seq<JsonModel>, p: spec_fn(JsonModel) -> bool, i: int)
    requires
        0 <= i < v.len(),
        p(v[i]),
    ensures
        kept(v, p).contains(v[i]),
    decreases v.len(),
{
    let before = kept(v.drop_last(), p);
    if i < v.len() - 1 {
        satisfying_is_kept(v.drop_last(), p, i);
        let k = choose|k: int| 0 <= k < before.len() && before[k] == v[i];
        assert(kept(v, p)[k] == v[i]);
    } else {
        assert(kept(v, p).last() == v[i]);
    }
}

/// The fields of the lists are told apart.
proof fn list_fields_differ()
    ensures
        "mode"@.len() == 4 && "mode"@[0] == 'm',
        "team"@.len() == 4 && "team"@[0] == 't',
        "model"@.len() == 5 && "model"@[0] == 'm',
        "ratio"@.len() == 5 && "ratio"@[0] == 'r',
        "prompt"@.len() == 6,
        "quality"@.len() == 7,
        "duration"@.len() == 8 && "duration"@[0] == 'd',
        "quantity"@.len() == 8 && "quantity"@[0] == 'q',
        "resolution"@.len() == 10,
        "asset-filter"@.len() == 12 && "asset-filter"@[6] == 'f',
        "asset-search"@.len() == 12 && "asset-search"@[6] == 's',
        "personal-sort"@.len() == 13 && "personal-sort"@[1] == 'e',
        "prompt-cursor"@.len() == 13 && "prompt-cursor"@[1] == 'r',
        "generate-audio"@.len() == 14 && "generate-audio"@[0] == 'g',
        "personal-trash"@.len() == 14 && "personal-trash"@[0] == 'p',
        "reduced-motion"@.len() == 14 && "reduced-motion"@[0] == 'r',
        "personal-filter"@.len() == 15 && "personal-filter"@[10] == 'i',
        "personal-search"@.len() == 15 && "personal-search"@[10] == 'e',
        "personal-source"@.len() == 15 && "personal-source"@[10] == 'o',
        "personal-favorites"@.len() == 18,
        "asset-picker-purpose"@.len() == 20,
        "personal-folder-filter"@.len() == 22,
        "personal-selection-mode"@.len() == 23,
        "asset-picker-team-filter"@.len() == 24 && "asset-picker-team-filter"@[18] == 'f',
        "asset-picker-team-search"@.len() == 24 && "asset-picker-team-search"@[18] == 's',
        "asset-picker-personal-filter"@.len() == 28,
{
    reveal_strlit("asset-filter");
    reveal_strlit("asset-picker-personal-filter");
    reveal_strlit("asset-picker-purpose");
    reveal_strlit("asset-picker-team-filter");
    reveal_strlit("asset-picker-team-search");
    reveal_strlit("asset-search");
    reveal_strlit("duration");
    reveal_strlit("generate-audio");
    reveal_strlit("mode");
    reveal_strlit("model");
    reveal_strlit("personal-favorites");
    reveal_strlit("personal-filter");
    reveal_strlit("personal-folder-filter");
    reveal_strlit("personal-search");
    reveal_strlit("personal-selection-mode");
    reveal_strlit("personal-source");
    reveal_strlit("personal-trash");
    reveal_strlit("personal-sort");
    reveal_strlit("prompt");
    reveal_strlit("prompt-cursor");
    reveal_strlit("quality");
    reveal_strlit("quantity");
    reveal_strlit("ratio");
    reveal_strlit("reduced-motion");
    reveal_strlit("resolution");
    reveal_strlit("team");
}

/// What the library is filtered by draws it anew and gives up the choice, which
/// might no longer be shown; its order only draws it anew.
pub proof fn filters_give_up_the_choice(field: Seq<char>, signed_in: bool)
    requires
        field == "personal-trash"@ || field == "personal-search"@ || field == "personal-filter"@
            || field == "personal-source"@ || field == "personal-favorites"@ || field
            == "personal-folder-filter"@ || field == "personal-selection-mode"@,
    ensures
        change_steps(field, false, signed_in, false, 0) == seq![
            StepView::ClearChoice,
            StepView::Draw(Panel::Personal),
        ],
        change_steps("personal-sort"@, false, signed_in, false, 0) == seq![
            StepView::Draw(Panel::Personal),
        ],
{
    list_fields_differ();
    reveal_strlit("personal-");
    reveal_strlit("personal-trash");
    reveal_strlit("personal-search");
    reveal_strlit("personal-filter");
    reveal_strlit("personal-source");
    reveal_strlit("personal-favorites");
    reveal_strlit("personal-folder-filter");
    reveal_strlit("personal-selection-mode");
    reveal_strlit("personal-sort");
    assert(field.subrange(0, 9) =~= "personal-"@);
    assert("personal-sort"@.subrange(0, 9) =~= "personal-"@);
    assert(change_steps(field, false, signed_in, false, 0) =~= seq![
        StepView::ClearChoice,
        StepView::Draw(Panel::Personal),
    ]);
    assert(change_steps("personal-sort"@, false, signed_in, false, 0) =~= seq![
        StepView::Draw(Panel::Personal),
    ]);
}

/// The list of the team follows what it is searched and filtered by, and
/// another team brings its own files.
pub proof fn team_lists_follow_their_filter(signed_in: bool)
    ensures
        change_steps("asset-search"@, false, signed_in, false, 0) == seq![
            StepView::Draw(Panel::Assets),
        ],
        change_steps("asset-filter"@, false, signed_in, false, 0) == seq![
            StepView::Draw(Panel::Assets),
        ],
        change_steps("team"@, false, signed_in, false, 0) == seq![StepView::TeamChanged],
{
    list_fields_differ();
    reveal_strlit("personal-");
    reveal_strlit("asset-search");
    reveal_strlit("asset-filter");
    assert("asset-search"@[0] == 'a' && "asset-filter"@[0] == 'a' && "personal-"@[0] == 'p');
    if has_prefix("asset-search"@, "personal-"@) {
        assert("asset-search"@.subrange(0, 9)[0] == 'p');
    }
    if has_prefix("asset-filter"@, "personal-"@) {
        assert("asset-filter"@.subrange(0, 9)[0] == 'p');
    }
    assert(change_steps("asset-search"@, false, signed_in, false, 0) =~= seq![
        StepView::Draw(Panel::Assets),
    ]);
    assert(change_steps("asset-filter"@, false, signed_in, false, 0) =~= seq![
        StepView::Draw(Panel::Assets),
    ]);
    assert(change_steps("team"@, false, signed_in, false, 0) =~= seq![StepView::TeamChanged]);
}

/// The wait for another code goes down by one every second, to none and no
/// farther; nothing else of the form changes.
pub proof fn waits_count_down(form: AuthView)
    ensures
        form.resend_seconds > 0 ==> second_passed(form).resend_seconds == form.resend_seconds - 1,
        form.resend_seconds <= 0 ==> second_passed(form).resend_seconds == 0,
        second_passed(form).email == form.email && second_passed(form).password == form.password
            && second_passed(form).mode == form.mode,
{
}

} // verus!
