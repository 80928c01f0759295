//! The account: its wallet, its orders and the plans that can be bought.

use crate::cloud::generation::{Quote, QuoteView};
use crate::cloud::requests::{items, items_of};
use crate::cloud::rows::{entry_views, AccountEntry, EntryView};
use crate::cloud::steps::{fetch, fetching, none, one, step_if, step_views, then_do, Panel, Step, StepView};
use crate::json::{models, printed, Json, JsonModel};
use crate::lists::{kept, kept_all, kept_step, text_is_not};
use crate::paths::{join_path, joined_path};
use crate::text::{cat, cat3, same, signed_decimal, to_signed_decimal};
use crate::urls::{opt_url, parse_url, url_parsed, UrlParts, UrlView};
use vstd::prelude::*;
use vstd::string::*;

verus! {

/// The account of the user.
pub struct Account {
    /// What requests are signed with, empty while nobody is signed in.
    pub token: String,
    pub email: String,
    /// The letter that stands for the user.
    pub label: String,
    pub balance: String,
    /// The credits that can be spent, where they are known.
    pub credits: Option<i64>,
    pub frozen: String,
    pub payment_enabled: bool,
    pub orders: Vec<Json>,
    /// The plans that can be bought.
    pub plans: Vec<Json>,
    /// The file that finished downloads are noted in.
    pub history_name: String,
    /// The file that the inputs of tasks are noted in.
    pub snapshot_name: String,
}

pub struct AccountView {
    pub token: Seq<char>,
    pub email: Seq<char>,
    pub label: Seq<char>,
    pub balance: Seq<char>,
    pub credits: Option<i64>,
    pub frozen: Seq<char>,
    pub payment_enabled: bool,
    pub orders: Seq<JsonModel>,
    pub plans: Seq<JsonModel>,
    pub history_name: Seq<char>,
    pub snapshot_name: Seq<char>,
}

impl View for Account {
    type V = AccountView;

    open spec fn view(&self) -> AccountView {
        AccountView {
            token: self.token@,
            email: self.email@,
            label: self.label@,
            balance: self.balance@,
            credits: self.credits,
            frozen: self.frozen@,
            payment_enabled: self.payment_enabled,
            orders: models(self.orders@),
            plans: models(self.plans@),
            history_name: self.history_name@,
            snapshot_name: self.snapshot_name@,
        }
    }
}

/// The number under a key, 0 where there is none.
pub open spec fn credits_at(v: JsonModel, key: Seq<char>) -> i64 {
    match v.at(key).as_i64() {
        Some(n) => n,
        None => 0,
    }
}

fn get_credits(v: &Json, key: &str) -> (r: i64)
    ensures
        r == credits_at(v@, key@),
{
    match v.at(key).as_i64() {
        Some(n) => n,
        None => 0,
    }
}

/// What a change of the wallet is called.
pub open spec fn change_title(kind: Seq<char>) -> Seq<char> {
    if kind == "hold"@ {
        "生成预扣"@
    } else if kind == "capture"@ {
        "生成消费"@
    } else if kind == "release"@ {
        "退回积分"@
    } else if kind == "recharge"@ {
        "充值到账"@
    } else {
        "积分变动"@
    }
}

fn title_of(kind: &str) -> (r: &'static str)
    ensures
        r@ == change_title(kind@),
{
    if same(kind, "hold") {
        "生成预扣"
    } else if same(kind, "capture") {
        "生成消费"
    } else if same(kind, "release") {
        "退回积分"
    } else if same(kind, "recharge") {
        "充值到账"
    } else {
        "积分变动"
    }
}

/// The row of a change of the wallet.
pub open spec fn change_row(v: JsonModel) -> EntryView {
    EntryView {
        id: v.text("id"@),
        title: change_title(v.text("kind"@)),
        detail: v.text("reference_id"@),
        value: printed(v.at("delta_available"@)),
    }
}

pub open spec fn ledger_rows(value: JsonModel) -> Seq<EntryView> {
    Seq::new(value.list("ledger"@).len(), |i: int| change_row(value.list("ledger"@)[i]))
}

/// The rows of the changes of the wallet.
pub fn list_ledger(value: &Json) -> (r: Vec<AccountEntry>)
    ensures
        entry_views(r@) == ledger_rows(value@),
{
    let list: Vec<Json> = value.list("ledger");
    let mut out: Vec<AccountEntry> = Vec::new();
    let mut i: usize = 0;
    while i < list.len()
        invariant
            i <= list.len(),
            models(list@) == value@.list("ledger"@),
            out@.len() == i,
            forall|j: int| 0 <= j < i ==> (#[trigger] out@[j])@ == change_row(models(list@)[j]),
        decreases list.len() - i,
    {
        let kind: String = list[i].text("kind");
        out.push(
            AccountEntry {
                id: list[i].text("id"),
                title: title_of(kind.as_str()).to_owned(),
                detail: list[i].text("reference_id"),
                value: list[i].at("delta_available").print(),
            },
        );
        i = i + 1;
    }
    proof {
        assert(entry_views(out@) =~= ledger_rows(value@));
    }
    out
}

/// The account and the quote after the wallet has come: whether the credits
/// are enough is judged anew.
pub open spec fn wallet_answered(account: AccountView, quote: QuoteView, value: JsonModel) -> (
    AccountView,
    QuoteView,
) {
    let available = credits_at(value, "available_credits"@);
    (
        AccountView {
            credits: Some(available),
            balance: signed_decimal(available as int),
            frozen: signed_decimal(credits_at(value, "held_credits"@) as int),
            ..account
        },
        match quote.credits {
            Some(credits) => QuoteView { insufficient: available < credits, ..quote },
            None => quote,
        },
    )
}

pub fn wallet_listed(account: &mut Account, quote: &mut Quote, value: &Json)
    ensures
        (final(account)@, final(quote)@) == wallet_answered(old(account)@, old(quote)@, value@),
{
    let available: i64 = get_credits(value, "available_credits");
    account.credits = Some(available);
    account.balance = to_signed_decimal(available);
    account.frozen = to_signed_decimal(get_credits(value, "held_credits"));
    if let Some(credits) = quote.credits {
        quote.insufficient = available < credits;
    }
}

/// The row of an order; `amount` is its price as it is shown.
pub open spec fn order_row(v: JsonModel, amount: Seq<char>) -> EntryView {
    let status = v.text("status"@);
    EntryView {
        id: v.text("id"@),
        title: "支付宝充值"@,
        detail: if status == "paid"@ {
            "已到账"@
        } else if status == "closed"@ {
            "已关闭"@
        } else {
            "等待支付"@
        },
        value: amount,
    }
}

pub open spec fn order_rows(orders: Seq<JsonModel>, amounts: Seq<String>) -> Seq<EntryView> {
    Seq::new(orders.len(), |i: int| order_row(orders[i], amounts[i]@))
}

/// The rows of the orders.
pub fn list_orders(orders: &Vec<Json>, amounts: &Vec<String>) -> (r: Vec<AccountEntry>)
    requires
        amounts.len() == orders.len(),
    ensures
        entry_views(r@) == order_rows(models(orders@), amounts@),
{
    let mut out: Vec<AccountEntry> = Vec::new();
    let mut i: usize = 0;
    while i < orders.len()
        invariant
            i <= orders.len(),
            amounts.len() == orders.len(),
            out@.len() == i,
            forall|j: int|
                0 <= j < i ==> (#[trigger] out@[j])@ == order_row(models(orders@)[j], amounts@[j]@),
        decreases orders.len() - i,
    {
        let detail: &'static str = if orders[i].text_is("status", "paid") {
            "已到账"
        } else if orders[i].text_is("status", "closed") {
            "已关闭"
        } else {
            "等待支付"
        };
        out.push(
            AccountEntry {
                id: orders[i].text("id"),
                title: "支付宝充值".to_owned(),
                detail: detail.to_owned(),
                value: amounts[i].clone(),
            },
        );
        i = i + 1;
    }
    proof {
        assert(entry_views(out@) =~= order_rows(models(orders@), amounts@));
    }
    out
}

/// A plan that can be bought.
pub struct CreditPlan {
    pub id: String,
    pub name: String,
    pub price: String,
    pub credits: String,
}

pub struct PlanView {
    pub id: Seq<char>,
    pub name: Seq<char>,
    pub price: Seq<char>,
    pub credits: Seq<char>,
}

impl View for CreditPlan {
    type V = PlanView;

    open spec fn view(&self) -> PlanView {
        PlanView {
            id: self.id@,
            name: self.name@,
            price: self.price@,
            credits: self.credits@,
        }
    }
}

/// The row of a plan; `price` is its price as it is shown.
pub open spec fn plan_row(v: JsonModel, price: Seq<char>) -> PlanView {
    PlanView {
        id: v.text("id"@),
        name: v.text("name"@),
        price,
        credits: printed(v.at("credits"@)) + " 积分"@,
    }
}

/// The rows of plans.
pub open spec fn plan_rows(plans: Seq<JsonModel>, prices: Seq<String>) -> Seq<PlanView> {
    Seq::new(plans.len(), |i: int| plan_row(plans[i], prices[i]@))
}

/// The views of rows of plans.
pub open spec fn plan_views(v: Seq<CreditPlan>) -> Seq<PlanView> {
    Seq::new(v.len(), |i: int| v[i]@)
}

/// The rows of the plans; `prices` are their prices as they are shown.
pub fn list_plans(plans: &Vec<Json>, prices: &Vec<String>) -> (r: Vec<CreditPlan>)
    requires
        prices.len() == plans.len(),
    ensures
        plan_views(r@) == plan_rows(models(plans@), prices@),
{
    let mut out: Vec<CreditPlan> = Vec::new();
    let mut i: usize = 0;
    while i < plans.len()
        invariant
            i <= plans.len(),
            prices.len() == plans.len(),
            out@.len() == i,
            forall|j: int|
                0 <= j < i ==> (#[trigger] out@[j])@ == plan_row(models(plans@)[j], prices@[j]@),
        decreases plans.len() - i,
    {
        out.push(show_plan(&plans[i], prices[i].as_str()));
        i = i + 1;
    }
    proof {
        assert(plan_views(out@) =~= plan_rows(models(plans@), prices@));
    }
    out
}

/// The account and the steps when the plans have come: they are kept and drawn.
pub open spec fn plans_answered(account: AccountView, value: JsonModel) -> (
    AccountView,
    Seq<StepView>,
) {
    (AccountView { plans: items_of(value), ..account }, seq![StepView::Draw(Panel::Plans)])
}

pub fn plans_listed(account: &mut Account, value: &Json) -> (r: Vec<Step>)
    ensures
        (final(account)@, step_views(r@)) == plans_answered(old(account)@, value@),
{
    account.plans = items(value);
    one(Step::Draw(Panel::Plans))
}

/// The row of a plan.
pub fn show_plan(v: &Json, price: &str) -> (r: CreditPlan)
    ensures
        r@ == plan_row(v@, price@),
{
    CreditPlan {
        id: v.text("id"),
        name: v.text("name"),
        price: price.to_owned(),
        credits: cat(v.at("credits").print().as_str(), " 积分"),
    }
}

/// The orders with one that has come: at the front, and once.
pub open spec fn order_placed(orders: Seq<JsonModel>, value: JsonModel) -> Seq<JsonModel> {
    seq![value] + kept(orders, text_is_not("id"@, value.text("id"@)))
}

fn place_order(orders: &mut Vec<Json>, value: &Json)
    ensures
        models(final(orders)@) == order_placed(models(old(orders)@), value@),
{
    let id: String = value.text("id");
    let ghost p = text_is_not("id"@, id@);
    let ghost m = models(orders@);
    let mut out: Vec<Json> = Vec::new();
    out.push(value.copy());
    let mut i: usize = 0;
    proof {
        kept_all(m, p);
        assert(models(out@) =~= seq![value@] + kept(m.take(0), p));
    }
    while i < orders.len()
        invariant
            i <= orders.len(),
            *orders == *old(orders),
            m == models(orders@),
            p == text_is_not("id"@, id@),
            models(out@) == seq![value@] + kept(m.take(i as int), p),
        decreases orders.len() - i,
    {
        proof {
            kept_step(m, p, i as int);
        }
        if !orders[i].text_is("id", id.as_str()) {
            let ghost before = out@;
            out.push(orders[i].copy());
            proof {
                assert(models(out@) =~= models(before).push(m[i as int]));
                assert(models(out@) =~= seq![value@] + kept(m.take(i as int), p).push(
                    m[i as int],
                ));
            }
        }
        i = i + 1;
    }
    proof {
        kept_all(m, p);
    }
    *orders = out;
}

/// A page of the payment service that may be opened.
pub open spec fn is_payment_page(url: Option<UrlView>) -> bool {
    url matches Some(u) && u.scheme == "https"@ && (u.host == Some("openapi.alipay.com"@)
        || u.host == Some("openapi-sandbox.dl.alipaydev.com"@))
}

/// Whether a page of the payment service may be opened.
pub fn payment_page(url: &Option<UrlParts>) -> (r: bool)
    ensures
        r == is_payment_page(opt_url(*url)),
{
    match url {
        Some(u) => {
            if !same(u.scheme.as_str(), "https") {
                return false;
            }
            match &u.host {
                Some(host) => same(host.as_str(), "openapi.alipay.com") || same(
                    host.as_str(),
                    "openapi-sandbox.dl.alipaydev.com",
                ),
                None => false,
            }
        },
        None => false,
    }
}

/// The page that a purchase goes on at, where there is one that may be opened.
pub open spec fn payment_url(value: JsonModel) -> Option<Seq<char>> {
    match value.at("payment_action"@).at("url"@).as_text() {
        Some(raw) => if is_payment_page(url_parsed(raw)) {
            Some(raw)
        } else {
            None
        },
        None => None,
    }
}

fn find_payment_url(value: &Json) -> (r: Option<String>)
    ensures
        crate::text::opt(r) == payment_url(value@),
{
    match value.at("payment_action").at("url").as_text() {
        Some(raw) => {
            let url: Option<UrlParts> = parse_url(raw.as_str());
            if payment_page(&url) {
                Some(raw)
            } else {
                None
            }
        },
        None => None,
    }
}

/// The account and the steps when an order or the list of orders has come.
pub open spec fn orders_answered(account: AccountView, name: Seq<char>, value: JsonModel) -> (
    AccountView,
    Seq<StepView>,
) {
    let page = payment_url(value);
    (
        AccountView {
            orders: if name == "orders"@ {
                items_of(value)
            } else {
                order_placed(account.orders, value)
            },
            ..account
        },
        step_if(
            seq![StepView::Draw(Panel::Orders)],
            name == "purchase"@ && page is Some,
            StepView::OpenFile(page->0),
        ).push(fetch("wallet"@, "/api/wallet"@)),
    )
}

pub fn orders_listed(account: &mut Account, name: &str, value: &Json) -> (r: Vec<Step>)
    ensures
        (final(account)@, step_views(r@)) == orders_answered(old(account)@, name@, value@),
{
    if same(name, "orders") {
        account.orders = items(value);
    } else {
        place_order(&mut account.orders, value);
    }
    let mut steps: Vec<Step> = one(Step::Draw(Panel::Orders));
    if same(name, "purchase") {
        if let Some(page) = find_payment_url(value) {
            then_do(&mut steps, Step::OpenFile(page));
        }
    }
    then_do(&mut steps, fetching("wallet", "/api/wallet"));
    steps
}

/// The account and the steps when the service has told what it can do.
pub open spec fn capabilities_answered(account: AccountView, name: Seq<char>, value: JsonModel) -> (
    AccountView,
    Seq<StepView>,
) {
    (
        AccountView {
            payment_enabled: value.at("payment"@).at("live_initiation_enabled"@).as_bool() == Some(
                true,
            ),
            ..account
        },
        if name == "connect"@ {
            seq![StepView::Notice("已连接服务器"@), StepView::RefreshModels]
        } else {
            Seq::empty()
        },
    )
}

pub fn capabilities_listed(account: &mut Account, name: &str, value: &Json) -> (r: Vec<Step>)
    ensures
        (final(account)@, step_views(r@)) == capabilities_answered(old(account)@, name@, value@),
{
    account.payment_enabled = match value.at("payment").at("live_initiation_enabled").as_bool() {
        Some(b) => b,
        None => false,
    };
    if same(name, "connect") {
        let mut steps: Vec<Step> = one(Step::Notice("已连接服务器".to_owned()));
        then_do(&mut steps, Step::RefreshModels);
        proof {
            assert(step_views(steps@) =~= seq![
                StepView::Notice("已连接服务器"@),
                StepView::RefreshModels,
            ]);
        }
        return steps;
    }
    none()
}

/// A purchase never opens a page of another service than the payment service,
/// nor one that is not encrypted.
pub proof fn purchases_open_payment_pages_only(
    account: AccountView,
    name: Seq<char>,
    value: JsonModel,
    page: Seq<char>,
)
    requires
        orders_answered(account, name, value).1.contains(StepView::OpenFile(page)),
    ensures
        is_payment_page(url_parsed(page)),
{
}

/// An order is listed once, at the front, however often it is answered.
pub proof fn orders_are_listed_once(orders: Seq<JsonModel>, value: JsonModel, i: int)
    requires
        0 < i < order_placed(orders, value).len(),
    ensures
        order_placed(orders, value)[0] == value,
        order_placed(orders, value)[i].text("id"@) != value.text("id"@),
{
    let p = text_is_not("id"@, value.text("id"@));
    crate::lists::kept_satisfies(orders, p);
    assert(p(kept(orders, p)[i - 1]));
}

/// The files that the inputs of tasks are noted in: the one that takes the
/// place of the other once it is written, and the other.
pub open spec fn snapshot_files(folder: Seq<char>, name: Seq<char>, id: Seq<char>) -> Result<
    (Seq<char>, Seq<char>),
    Seq<char>,
> {
    if name == ""@ {
        Err("尚未登录，无法保存历史任务配置"@)
    } else {
        Ok(
            (
                joined_path(folder, "."@ + name + "."@ + id + ".tmp"@),
                joined_path(folder, name),
            ),
        )
    }
}

/// The files that the inputs of tasks are noted in; nobody's are noted.
pub fn save_task_snapshots(account: &Account, folder: &str, id: &str) -> (r: Result<
    (String, String),
    String,
>)
    ensures
        match (r, snapshot_files(folder@, account@.snapshot_name, id@)) {
            (Ok(files), Ok((temporary, destination))) => files.0@ == temporary && files.1@
                == destination,
            (Err(e), Err(message)) => e@ == message,
            _ => false,
        },
{
    if same(account.snapshot_name.as_str(), "") {
        return Err("尚未登录，无法保存历史任务配置".to_owned());
    }
    let head: String = cat3(".", account.snapshot_name.as_str(), ".");
    let temporary: String = cat3(head.as_str(), id, ".tmp");
    Ok(
        (
            join_path(folder, temporary.as_str()),
            join_path(folder, account.snapshot_name.as_str()),
        ),
    )
}

} // verus!
