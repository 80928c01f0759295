//! Local generation templates. Applying a template only restores form state.
//!
//! A change is staged in memory and then written out by the caller. The
//! outcome of that write is handed back: where it failed, the templates are
//! again what they were before the change.

use crate::ids::{fresh_id, is_uuid};
use crate::json::{Json, JsonModel};
use crate::text::{byte_count, byte_len, control, is_control, outcome, same, trim, trimmed, verdict};
use vstd::prelude::*;
use vstd::string::*;

verus! {

/// The file that holds the templates of a library.
pub const MANIFEST_NAME: &'static str = "templates.json";

/// A reference file of a template.
pub struct TemplateReference {
    pub path: String,
    pub name: String,
    pub kind: String,
    /// Stable client-side identity used while an asynchronous upload is in
    /// flight. Older template manifests do not carry it, so an empty value is
    /// valid.
    pub client_id: String,
    /// Provider or asset identity from a historical task. It is retained even
    /// when the local file is no longer available.
    pub source_id: String,
}

pub struct ReferenceView {
    pub path: Seq<char>,
    pub name: Seq<char>,
    pub kind: Seq<char>,
    pub client_id: Seq<char>,
    pub source_id: Seq<char>,
}

impl View for TemplateReference {
    type V = ReferenceView;

    open spec fn view(&self) -> ReferenceView {
        ReferenceView {
            path: self.path@,
            name: self.name@,
            kind: self.kind@,
            client_id: self.client_id@,
            source_id: self.source_id@,
        }
    }
}

impl TemplateReference {
    pub fn copy(&self) -> (r: TemplateReference)
        ensures
            r@ == self@,
    {
        TemplateReference {
            path: self.path.clone(),
            name: self.name.clone(),
            kind: self.kind.clone(),
            client_id: self.client_id.clone(),
            source_id: self.source_id.clone(),
        }
    }
}

/// The views of a list of references.
pub open spec fn reference_views(v: Seq<TemplateReference>) -> Seq<ReferenceView> {
    Seq::new(v.len(), |i: int| v[i]@)
}

pub fn copy_references(v: &Vec<TemplateReference>) -> (r: Vec<TemplateReference>)
    ensures
        reference_views(r@) == reference_views(v@),
{
    let mut out: Vec<TemplateReference> = Vec::new();
    let mut i: usize = 0;
    while i < v.len()
        invariant
            i <= v.len(),
            out@.len() == i,
            forall|j: int| 0 <= j < i ==> (#[trigger] out@[j])@ == v@[j]@,
        decreases v.len() - i,
    {
        out.push(v[i].copy());
        i = i + 1;
    }
    proof {
        assert(reference_views(out@) =~= reference_views(v@));
    }
    out
}

/// A saved state of the generation form.
pub struct GenerationTemplate {
    pub id: String,
    pub name: String,
    pub prompt: String,
    pub mode: i32,
    pub model_id: String,
    pub parameters: Json,
    pub references: Vec<TemplateReference>,
    pub created_at: u64,
    pub updated_at: u64,
}

pub struct TemplateView {
    pub id: Seq<char>,
    pub name: Seq<char>,
    pub prompt: Seq<char>,
    pub mode: i32,
    pub model_id: Seq<char>,
    pub parameters: JsonModel,
    pub references: Seq<ReferenceView>,
    pub created_at: u64,
    pub updated_at: u64,
}

impl View for GenerationTemplate {
    type V = TemplateView;

    open spec fn view(&self) -> TemplateView {
        TemplateView {
            id: self.id@,
            name: self.name@,
            prompt: self.prompt@,
            mode: self.mode,
            model_id: self.model_id@,
            parameters: self.parameters@,
            references: reference_views(self.references@),
            created_at: self.created_at,
            updated_at: self.updated_at,
        }
    }
}

impl GenerationTemplate {
    pub fn copy(&self) -> (r: GenerationTemplate)
        ensures
            r@ == self@,
    {
        GenerationTemplate {
            id: self.id.clone(),
            name: self.name.clone(),
            prompt: self.prompt.clone(),
            mode: self.mode,
            model_id: self.model_id.clone(),
            parameters: self.parameters.copy(),
            references: copy_references(&self.references),
            created_at: self.created_at,
            updated_at: self.updated_at,
        }
    }
}

/// The views of a list of templates.
pub open spec fn template_views(v: Seq<GenerationTemplate>) -> Seq<TemplateView> {
    Seq::new(v.len(), |i: int| v[i]@)
}

pub fn copy_templates(v: &Vec<GenerationTemplate>) -> (r: Vec<GenerationTemplate>)
    ensures
        template_views(r@) == template_views(v@),
{
    let mut out: Vec<GenerationTemplate> = Vec::new();
    let mut i: usize = 0;
    while i < v.len()
        invariant
            i <= v.len(),
            out@.len() == i,
            forall|j: int| 0 <= j < i ==> (#[trigger] out@[j])@ == v@[j]@,
        decreases v.len() - i,
    {
        out.push(v[i].copy());
        i = i + 1;
    }
    proof {
        assert(template_views(out@) =~= template_views(v@));
    }
    out
}

/// The place of the first template with an id, from `i` on.
pub open spec fn find_from(v: Seq<TemplateView>, id: Seq<char>, i: int) -> Option<int>
    decreases v.len() - i,
{
    if i < 0 || i >= v.len() {
        None
    } else if v[i].id == id {
        Some(i)
    } else {
        find_from(v, id, i + 1)
    }
}

/// The place of the first template with an id.
pub open spec fn place_of(v: Seq<TemplateView>, id: Seq<char>) -> Option<int> {
    find_from(v, id, 0)
}

proof fn find_from_found(v: Seq<TemplateView>, id: Seq<char>, i: int)
    requires
        0 <= i,
    ensures
        find_from(v, id, i) matches Some(k) ==> i <= k < v.len() && v[k].id == id && forall|j: int|
            i <= j < k ==> (#[trigger] v[j]).id != id,
        find_from(v, id, i) is None ==> forall|j: int|
            i <= j < v.len() ==> (#[trigger] v[j]).id != id,
    decreases v.len() - i,
{
    if i < v.len() && v[i].id != id {
        find_from_found(v, id, i + 1);
    }
}

/// What is wrong with the name of a template: it is blank, takes more than 80
/// bytes without the space around it, or holds a control character.
pub open spec fn name_fault(name: Seq<char>) -> Option<Seq<char>> {
    if trimmed(name).len() == 0 {
        Some("模板名称不能为空"@)
    } else if byte_len(trimmed(name)) > 80 || exists|i: int|
        0 <= i < name.len() && control(#[trigger] name[i]) {
        Some("模板名称最多 80 个字符，且不能包含控制字符"@)
    } else {
        None
    }
}

pub fn validate_name(name: &str) -> (r: Result<(), String>)
    ensures
        verdict(r) == match name_fault(name@) {
            Some(message) => Err(message),
            None => Ok(()),
        },
{
    let short: String = trim(name);
    if short.as_str().is_empty() {
        return Err("模板名称不能为空".to_owned());
    }
    if byte_count(short.as_str()) > 80 {
        return Err("模板名称最多 80 个字符，且不能包含控制字符".to_owned());
    }
    let v: Vec<char> = crate::text::chars_of(name);
    let mut i: usize = 0;
    while i < v.len()
        invariant
            i <= v.len(),
            v@ == name@,
            trimmed(name@).len() > 0,
            byte_len(trimmed(name@)) <= 80,
            forall|j: int| 0 <= j < i ==> !control(#[trigger] name@[j]),
        decreases v.len() - i,
    {
        if is_control(v[i]) {
            return Err("模板名称最多 80 个字符，且不能包含控制字符".to_owned());
        }
        i = i + 1;
    }
    Ok(())
}

/// The milliseconds since the Unix epoch by `SystemTime::now` of std, `None`
/// where the clock stands before the epoch. Nothing is promised of a clock.
#[verifier::external_body]
pub(crate) fn clock_millis() -> (r: Option<u128>) {
    std::time::SystemTime::now().duration_since(std::time::UNIX_EPOCH).ok().map(|d| d.as_millis())
}

/// A reading of the clock as the manifests hold it.
pub open spec fn millis_of(clock: Option<u128>) -> Result<u64, Seq<char>> {
    match clock {
        None => Err("系统时间无效，无法保存模板"@),
        Some(n) => if n <= u64::MAX {
            Ok(n as u64)
        } else {
            Err("系统时间超出支持范围"@)
        },
    }
}

/// The view of a time or an error message.
pub open spec fn time_view(r: Result<u64, String>) -> Result<u64, Seq<char>> {
    match r {
        Ok(n) => Ok(n),
        Err(e) => Err(e@),
    }
}

pub fn checked_millis(clock: Option<u128>) -> (r: Result<u64, String>)
    ensures
        time_view(r) == millis_of(clock),
{
    match clock {
        None => Err("系统时间无效，无法保存模板".to_owned()),
        Some(n) => if n <= u64::MAX as u128 {
            Ok(n as u64)
        } else {
            Err("系统时间超出支持范围".to_owned())
        },
    }
}

/// The time in milliseconds since the Unix epoch.
pub fn now_millis() -> (r: Result<u64, String>)
    ensures
        exists|clock: Option<u128>| time_view(r) == millis_of(clock),
{
    let clock: Option<u128> = clock_millis();
    checked_millis(clock)
}

/// The templates of a folder. Between a change and the report of its write,
/// `previous` holds the templates as they were before the change.
pub struct Library {
    pub root: String,
    pub items: Vec<GenerationTemplate>,
    pub previous: Option<Vec<GenerationTemplate>>,
}

pub struct LibraryView {
    pub root: Seq<char>,
    pub items: Seq<TemplateView>,
    pub previous: Option<Seq<TemplateView>>,
}

impl View for Library {
    type V = LibraryView;

    open spec fn view(&self) -> LibraryView {
        LibraryView {
            root: self.root@,
            items: template_views(self.items@),
            previous: match self.previous {
                Some(v) => Some(template_views(v@)),
                None => None,
            },
        }
    }
}

/// The template with the form put into it.
pub open spec fn refilled(
    item: TemplateView,
    name: Seq<char>,
    prompt: Seq<char>,
    mode: i32,
    model_id: Seq<char>,
    parameters: JsonModel,
    references: Seq<ReferenceView>,
    now: u64,
) -> TemplateView {
    TemplateView {
        id: item.id,
        name: trimmed(name),
        prompt,
        mode,
        model_id,
        parameters,
        references,
        created_at: item.created_at,
        updated_at: now,
    }
}

/// What saving the form does: the new templates and the id, or the error.
/// With an id that is not empty the template of that id is refilled; otherwise
/// a template with the id `fresh` is added.
pub open spec fn saved_form(
    items: Seq<TemplateView>,
    id: Option<Seq<char>>,
    name: Seq<char>,
    prompt: Seq<char>,
    mode: i32,
    model_id: Seq<char>,
    parameters: JsonModel,
    references: Seq<ReferenceView>,
    now: u64,
    fresh: Seq<char>,
) -> Result<(Seq<TemplateView>, Seq<char>), Seq<char>> {
    if name_fault(name) is Some {
        Err(name_fault(name)->0)
    } else if model_id.len() == 0 {
        Err("当前没有可保存的生成模型"@)
    } else if id is Some && id->0.len() > 0 {
        match place_of(items, id->0) {
            Some(k) => Ok(
                (
                    items.update(
                        k,
                        refilled(
                            items[k],
                            name,
                            prompt,
                            mode,
                            model_id,
                            parameters,
                            references,
                            now,
                        ),
                    ),
                    id->0,
                ),
            ),
            None => Err("未找到该生成模板，请刷新后重试"@),
        }
    } else {
        Ok(
            (
                items.push(
                    TemplateView {
                        id: fresh,
                        name: trimmed(name),
                        prompt,
                        mode,
                        model_id,
                        parameters,
                        references,
                        created_at: now,
                        updated_at: now,
                    },
                ),
                fresh,
            ),
        )
    }
}

/// The library after a change that may have been refused: a refused one leaves
/// it as it is, another one keeps the templates from before.
pub open spec fn staged(
    before: LibraryView,
    change: Result<(Seq<TemplateView>, Seq<char>), Seq<char>>,
) -> LibraryView {
    match change {
        Ok((items, _)) => LibraryView {
            root: before.root,
            items,
            previous: Some(before.items),
        },
        Err(_) => before,
    }
}

/// What the caller of a change is told.
pub open spec fn reported(
    change: Result<(Seq<TemplateView>, Seq<char>), Seq<char>>,
) -> Result<Seq<char>, Seq<char>> {
    match change {
        Ok((_, id)) => Ok(id),
        Err(e) => Err(e),
    }
}

/// What renaming a template and replacing its prompt does. Where the clock
/// cannot be read, the name and the prompt have been replaced all the same.
pub open spec fn text_updated(
    before: LibraryView,
    id: Seq<char>,
    name: Seq<char>,
    prompt: Seq<char>,
    clock: Option<u128>,
) -> (Result<(), Seq<char>>, LibraryView) {
    if name_fault(name) is Some {
        (Err(name_fault(name)->0), before)
    } else {
        match place_of(before.items, id) {
            None => (Err("未找到该生成模板，请刷新后重试"@), before),
            Some(k) => {
                let renamed = TemplateView { name: trimmed(name), prompt, ..before.items[k] };
                match millis_of(clock) {
                    Err(message) => (
                        Err(message),
                        LibraryView { items: before.items.update(k, renamed), ..before },
                    ),
                    Ok(now) => (
                        Ok(()),
                        LibraryView {
                            items: before.items.update(
                                k,
                                TemplateView { updated_at: now, ..renamed },
                            ),
                            previous: Some(before.items),
                            ..before
                        },
                    ),
                }
            },
        }
    }
}

fn find_template(items: &Vec<GenerationTemplate>, id: &str) -> (r: Option<usize>)
    ensures
        match r {
            Some(k) => place_of(template_views(items@), id@) == Some(k as int) && k < items.len(),
            None => place_of(template_views(items@), id@) is None,
        },
{
    let ghost all = template_views(items@);
    let mut i: usize = 0;
    while i < items.len()
        invariant
            i <= items.len(),
            all == template_views(items@),
            place_of(all, id@) == find_from(all, id@, i as int),
        decreases items.len() - i,
    {
        proof {
            assert(all[i as int] == items@[i as int]@);
        }
        if same(items[i].id.as_str(), id) {
            return Some(i);
        }
        i = i + 1;
    }
    None
}

/// The library of a folder whose manifest lists some templates; of none where
/// there is no manifest yet.
pub open spec fn loaded(root: Seq<char>, manifest: Option<Seq<TemplateView>>) -> LibraryView {
    LibraryView {
        root,
        items: match manifest {
            Some(items) => items,
            None => Seq::empty(),
        },
        previous: None,
    }
}

/// The library once the write of the last change ended: a change that could not
/// be written is undone.
pub open spec fn settled(library: LibraryView, written: bool) -> LibraryView {
    LibraryView {
        items: if !written && library.previous is Some {
            library.previous->0
        } else {
            library.items
        },
        previous: None,
        ..library
    }
}

impl Library {
    /// A library of the templates that its manifest lists; none where there is
    /// no manifest yet.
    pub fn load(root: &str, manifest: Option<Vec<GenerationTemplate>>) -> (r: Library)
        ensures
            r@ == loaded(
                root@,
                match manifest {
                    Some(v) => Some(template_views(v@)),
                    None => None,
                },
            ),
    {
        let items: Vec<GenerationTemplate> = match manifest {
            Some(v) => v,
            None => {
                let v: Vec<GenerationTemplate> = Vec::new();
                proof {
                    assert(template_views(v@) =~= Seq::empty());
                }
                v
            },
        };
        Library { root: root.to_owned(), items, previous: None }
    }

    pub fn items(&self) -> (r: &Vec<GenerationTemplate>)
        ensures
            template_views(r@) == self@.items,
    {
        &self.items
    }

    pub fn get(&self, id: &str) -> (r: Option<&GenerationTemplate>)
        ensures
            match place_of(self@.items, id@) {
                Some(k) => r matches Some(item) && item@ == self@.items[k],
                None => r is None,
            },
    {
        match find_template(&self.items, id) {
            Some(k) => Some(&self.items[k]),
            None => None,
        }
    }

    /// Saves the form at the time `now`, as a new template of the id `fresh`
    /// where `id` names none.
    pub fn save_current_at(
        &mut self,
        id: Option<&str>,
        name: &str,
        prompt: String,
        mode: i32,
        model_id: String,
        parameters: Json,
        references: Vec<TemplateReference>,
        now: u64,
        fresh: String,
    ) -> (r: Result<String, String>)
        ensures
            ({
                let change = saved_form(
                    old(self)@.items,
                    match id {
                        Some(s) => Some(s@),
                        None => None,
                    },
                    name@,
                    prompt@,
                    mode,
                    model_id@,
                    parameters@,
                    reference_views(references@),
                    now,
                    fresh@,
                );
                &&& outcome(r) == reported(change)
                &&& final(self)@ == staged(old(self)@, change)
            }),
    {
        if let Err(e) = validate_name(name) {
            return Err(e);
        }
        if model_id.as_str().is_empty() {
            return Err("当前没有可保存的生成模型".to_owned());
        }
        let ghost before = self@.items;
        let short: String = trim(name);
        if let Some(wanted) = id {
            if !wanted.is_empty() {
                let k: usize = match find_template(&self.items, wanted) {
                    Some(k) => k,
                    None => return Err("未找到该生成模板，请刷新后重试".to_owned()),
                };
                let previous: Vec<GenerationTemplate> = copy_templates(&self.items);
                let item = GenerationTemplate {
                    id: self.items[k].id.clone(),
                    name: short,
                    prompt,
                    mode,
                    model_id,
                    parameters,
                    references,
                    created_at: self.items[k].created_at,
                    updated_at: now,
                };
                let ghost new = item@;
                self.items.set(k, item);
                self.previous = Some(previous);
                proof {
                    find_from_found(before, wanted@, 0);
                    assert(template_views(self.items@) =~= before.update(k as int, new));
                }
                return Ok(wanted.to_owned());
            }
        }
        let previous: Vec<GenerationTemplate> = copy_templates(&self.items);
        let item = GenerationTemplate {
            id: fresh.clone(),
            name: short,
            prompt,
            mode,
            model_id,
            parameters,
            references,
            created_at: now,
            updated_at: now,
        };
        let ghost new = item@;
        self.items.push(item);
        self.previous = Some(previous);
        proof {
            assert(template_views(self.items@) =~= before.push(new));
        }
        Ok(fresh)
    }

    /// Saves the form now, under a fresh id where `id` names no template.
    pub fn save_current(
        &mut self,
        id: Option<&str>,
        name: &str,
        prompt: String,
        mode: i32,
        model_id: String,
        parameters: Json,
        references: Vec<TemplateReference>,
    ) -> (r: Result<String, String>)
        ensures
            name_fault(name@) matches Some(message) ==> outcome(r) == Err::<Seq<char>, _>(message)
                && *final(self) == *old(self),
            name_fault(name@) is None && model_id@.len() == 0 ==> outcome(r) == Err::<
                Seq<char>,
                _,
            >("当前没有可保存的生成模型"@) && *final(self) == *old(self),
            name_fault(name@) is None && model_id@.len() > 0 ==> exists|
                clock: Option<u128>,
                fresh: Seq<char>,
            |
                #![trigger millis_of(clock), is_uuid(fresh)]
                is_uuid(fresh) && match millis_of(clock) {
                    Err(message) => outcome(r) == Err::<Seq<char>, _>(message) && *final(self)
                        == *old(self),
                    Ok(now) => {
                        let change = saved_form(
                            old(self)@.items,
                            match id {
                                Some(s) => Some(s@),
                                None => None,
                            },
                            name@,
                            prompt@,
                            mode,
                            model_id@,
                            parameters@,
                            reference_views(references@),
                            now,
                            fresh,
                        );
                        &&& outcome(r) == reported(change)
                        &&& final(self)@ == staged(old(self)@, change)
                    },
                },
    {
        if let Err(e) = validate_name(name) {
            return Err(e);
        }
        if model_id.as_str().is_empty() {
            return Err("当前没有可保存的生成模型".to_owned());
        }
        let clock: Option<u128> = clock_millis();
        let fresh: String = fresh_id();
        let ghost fresh_view = fresh@;
        match checked_millis(clock) {
            Err(e) => {
                proof {
                    assert(is_uuid(fresh_view));
                    assert(millis_of(clock) == Err::<u64, _>(e@));
                }
                Err(e)
            },
            Ok(now) => {
                proof {
                    assert(is_uuid(fresh_view));
                    assert(millis_of(clock) == Ok::<u64, Seq<char>>(now));
                }
                self.save_current_at(
                    id,
                    name,
                    prompt,
                    mode,
                    model_id,
                    parameters,
                    references,
                    now,
                    fresh,
                )
            },
        }
    }

    /// Renames a template and replaces its prompt, at the time that `clock`
    /// gives.
    pub fn update_text_at(
        &mut self,
        id: &str,
        name: &str,
        prompt: String,
        clock: Option<u128>,
    ) -> (r: Result<(), String>)
        ensures
            (verdict(r), final(self)@) == text_updated(old(self)@, id@, name@, prompt@, clock),
    {
        if let Err(e) = validate_name(name) {
            return Err(e);
        }
        let ghost before = self@.items;
        let k: usize = match find_template(&self.items, id) {
            Some(k) => k,
            None => return Err("未找到该生成模板，请刷新后重试".to_owned()),
        };
        let previous: Vec<GenerationTemplate> = copy_templates(&self.items);
        let mut item: GenerationTemplate = self.items[k].copy();
        item.name = trim(name);
        item.prompt = prompt;
        match checked_millis(clock) {
            Err(e) => {
                let ghost new = item@;
                self.items.set(k, item);
                proof {
                    assert(template_views(self.items@) =~= before.update(k as int, new));
                }
                Err(e)
            },
            Ok(now) => {
                item.updated_at = now;
                let ghost new = item@;
                self.items.set(k, item);
                self.previous = Some(previous);
                proof {
                    assert(template_views(self.items@) =~= before.update(k as int, new));
                }
                Ok(())
            },
        }
    }

    /// Renames a template and replaces its prompt, now.
    pub fn update_text(&mut self, id: &str, name: &str, prompt: String) -> (r: Result<(), String>)
        ensures
            exists|clock: Option<u128>|
                (verdict(r), final(self)@) == #[trigger] text_updated(
                    old(self)@,
                    id@,
                    name@,
                    prompt@,
                    clock,
                ),
    {
        let clock: Option<u128> = clock_millis();
        self.update_text_at(id, name, prompt, clock)
    }

    /// Takes a template out.
    pub fn delete(&mut self, id: &str) -> (r: Result<(), String>)
        ensures
            match place_of(old(self)@.items, id@) {
                None => verdict(r) == Err::<(), _>("未找到该生成模板，请刷新后重试"@)
                    && *final(self) == *old(self),
                Some(k) => verdict(r) == Ok::<(), Seq<char>>(()) && final(self)@ == (LibraryView {
                    items: old(self)@.items.remove(k),
                    previous: Some(old(self)@.items),
                    ..old(self)@
                }),
            },
    {
        let ghost before = self@.items;
        let k: usize = match find_template(&self.items, id) {
            Some(k) => k,
            None => return Err("未找到该生成模板，请刷新后重试".to_owned()),
        };
        let previous: Vec<GenerationTemplate> = copy_templates(&self.items);
        self.items.remove(k);
        self.previous = Some(previous);
        proof {
            assert(template_views(self.items@) =~= before.remove(k as int));
        }
        Ok(())
    }

    /// Takes note of how the write of the last change ended: a change that
    /// could not be written is undone.
    pub fn settle(&mut self, written: Result<(), String>) -> (r: Result<(), String>)
        ensures
            r == written,
            final(self)@ == settled(old(self)@, written is Ok),
    {
        let previous: Option<Vec<GenerationTemplate>> = self.previous.take();
        if written.is_err() {
            if let Some(items) = previous {
                self.items = items;
            }
        }
        written
    }
}

/// What was written is loaded again: where the manifest lists the templates that
/// a library held when its last change was written, the library that is loaded
/// holds the same ones in the same order, and finds the same under every id.
pub proof fn written_templates_are_loaded(library: LibraryView, id: Seq<char>)
    ensures
        loaded(library.root, Some(library.items)) == settled(library, true),
        place_of(loaded(library.root, Some(library.items)).items, id) == place_of(
            library.items,
            id,
        ),
{
}

/// A change whose write fails leaves the templates as they were.
pub proof fn failed_write_restores_the_templates(
    before: LibraryView,
    change: Result<(Seq<TemplateView>, Seq<char>), Seq<char>>,
)
    requires
        before.previous is None,
    ensures
        ({
            let after = staged(before, change);
            let restored = if after.previous is Some {
                after.previous->0
            } else {
                after.items
            };
            restored == before.items
        }),
{
}

/// A template that has just been saved is found under its id, with the form
/// in it, and every other id still finds what it found.
pub proof fn saved_form_is_found(
    items: Seq<TemplateView>,
    id: Option<Seq<char>>,
    name: Seq<char>,
    prompt: Seq<char>,
    mode: i32,
    model_id: Seq<char>,
    parameters: JsonModel,
    references: Seq<ReferenceView>,
    now: u64,
    fresh: Seq<char>,
    other: Seq<char>,
)
    requires
        place_of(items, fresh) is None,
    ensures
        saved_form(items, id, name, prompt, mode, model_id, parameters, references, now, fresh)
            matches Ok((after, saved)) ==> {
            &&& place_of(after, saved) matches Some(k) && {
                &&& after[k].prompt == prompt
                &&& after[k].name == trimmed(name)
                &&& after[k].mode == mode
                &&& after[k].model_id == model_id
                &&& after[k].parameters == parameters
                &&& after[k].references == references
                &&& after[k].updated_at == now
            }
            &&& other != saved ==> match place_of(items, other) {
                Some(k) => place_of(after, other) == Some(k) && after[k] == items[k],
                None => place_of(after, other) is None,
            }
        },
{
    match saved_form(items, id, name, prompt, mode, model_id, parameters, references, now, fresh) {
        Ok((after, saved)) => {
            find_from_found(items, saved, 0);
            find_from_found(after, saved, 0);
            find_from_found(items, other, 0);
            find_from_found(after, other, 0);
            if id is Some && id->0.len() > 0 {
                let k = place_of(items, saved)->0;
                assert(after[k].id == saved);
                let found = place_of(after, saved)->0;
                if found < k {
                    assert(after[found] == items[found]);
                }
            } else {
                let last = after.len() - 1;
                assert(after[last].id == fresh);
                assert forall|j: int| 0 <= j < last implies after[j].id != fresh by {
                    assert(after[j] == items[j]);
                }
            }
            if other != saved {
                if let Some(k) = place_of(items, other) {
                    assert(after[k] == items[k]);
                    let found = place_of(after, other)->0;
                    assert(after[found].id == other);
                    if found < k {
                        assert(after[found].id == items[found].id);
                    }
                } else if let Some(found) = place_of(after, other) {
                    assert(found < items.len());
                    assert(after[found].id == items[found].id);
                }
            }
        },
        Err(_) => {},
    }
}

/// The place where a template is found is one of the list.
pub(crate) proof fn place_is_there(items: Seq<TemplateView>, id: Seq<char>)
    ensures
        place_of(items, id) matches Some(k) ==> 0 <= k < items.len() && items[k].id == id,
{
    find_from_found(items, id, 0);
}

} // verus!
