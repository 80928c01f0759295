//! The rows that lists of the window show.

use vstd::prelude::*;
use vstd::string::*;

verus! {

/// A row of a list of files, results, templates or projects.
pub struct CloudItem {
    pub id: String,
    pub name: String,
    pub detail: String,
    pub status: String,
    pub kind: String,
    pub date_label: String,
    /// The file that the row shows a picture of.
    pub preview: String,
    pub ready: bool,
    pub local: bool,
    pub failed: bool,
    pub missing: bool,
    pub favorite: bool,
    pub selected: bool,
    pub refillable: bool,
}

pub struct ItemRow {
    pub id: Seq<char>,
    pub name: Seq<char>,
    pub detail: Seq<char>,
    pub status: Seq<char>,
    pub kind: Seq<char>,
    pub date_label: Seq<char>,
    pub preview: Seq<char>,
    pub ready: bool,
    pub local: bool,
    pub failed: bool,
    pub missing: bool,
    pub favorite: bool,
    pub selected: bool,
    pub refillable: bool,
}

impl View for CloudItem {
    type V = ItemRow;

    open spec fn view(&self) -> ItemRow {
        ItemRow {
            id: self.id@,
            name: self.name@,
            detail: self.detail@,
            status: self.status@,
            kind: self.kind@,
            date_label: self.date_label@,
            preview: self.preview@,
            ready: self.ready,
            local: self.local,
            failed: self.failed,
            missing: self.missing,
            favorite: self.favorite,
            selected: self.selected,
            refillable: self.refillable,
        }
    }
}

/// A row with nothing in it.
pub open spec fn blank() -> ItemRow {
    ItemRow {
        id: ""@,
        name: ""@,
        detail: ""@,
        status: ""@,
        kind: ""@,
        date_label: ""@,
        preview: ""@,
        ready: false,
        local: false,
        failed: false,
        missing: false,
        favorite: false,
        selected: false,
        refillable: false,
    }
}

pub fn blank_item() -> (r: CloudItem)
    ensures
        r@ == blank(),
{
    CloudItem {
        id: "".to_owned(),
        name: "".to_owned(),
        detail: "".to_owned(),
        status: "".to_owned(),
        kind: "".to_owned(),
        date_label: "".to_owned(),
        preview: "".to_owned(),
        ready: false,
        local: false,
        failed: false,
        missing: false,
        favorite: false,
        selected: false,
        refillable: false,
    }
}

impl CloudItem {
    pub fn copy(&self) -> (r: CloudItem)
        ensures
            r@ == self@,
    {
        CloudItem {
            id: self.id.clone(),
            name: self.name.clone(),
            detail: self.detail.clone(),
            status: self.status.clone(),
            kind: self.kind.clone(),
            date_label: self.date_label.clone(),
            preview: self.preview.clone(),
            ready: self.ready,
            local: self.local,
            failed: self.failed,
            missing: self.missing,
            favorite: self.favorite,
            selected: self.selected,
            refillable: self.refillable,
        }
    }
}

/// The views of a list of rows.
pub open spec fn row_views(v: Seq<CloudItem>) -> Seq<ItemRow> {
    Seq::new(v.len(), |i: int| v[i]@)
}

/// A row of a list of the account.
pub struct AccountEntry {
    pub id: String,
    pub title: String,
    pub detail: String,
    pub value: String,
}

pub struct EntryView {
    pub id: Seq<char>,
    pub title: Seq<char>,
    pub detail: Seq<char>,
    pub value: Seq<char>,
}

impl View for AccountEntry {
    type V = EntryView;

    open spec fn view(&self) -> EntryView {
        EntryView {
            id: self.id@,
            title: self.title@,
            detail: self.detail@,
            value: self.value@,
        }
    }
}

/// The views of a list of rows of the account.
pub open spec fn entry_views(v: Seq<AccountEntry>) -> Seq<EntryView> {
    Seq::new(v.len(), |i: int| v[i]@)
}

} // verus!
