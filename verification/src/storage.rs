//! What the stored files hold and how each change rewrites them: order
//! history, the history of configured projects, cookies.
use vstd::prelude::*;
use crate::json::{Json, JsonV};

verus! {

/// A file write that the caller carries out (atomically) in the data directory.
pub struct FileWrite {
    pub file_name: String,
    pub content: String,
}

/// A placed order.
pub struct HistoryItem {
    pub order_id: String,
    pub project_name: String,
    pub price: u32,
    pub time: String,
    pub pay_url: String,
}

/// A project (and possibly a ticket SKU) the user configured.
pub struct ProjectConfig {
    pub project_id: String,
    pub project_name: String,
    pub screen_id: String,
    pub screen_name: String,
    pub sku_id: String,
    pub sku_name: String,
    pub price: u32,
}

impl HistoryItem {
    /// A copy of this item.
    pub fn copied(&self) -> (r: Self)
        ensures
            r == *self,
    {
        HistoryItem {
            order_id: self.order_id.clone(),
            project_name: self.project_name.clone(),
            price: self.price,
            time: self.time.clone(),
            pay_url: self.pay_url.clone(),
        }
    }
}

impl ProjectConfig {
    /// A copy of this entry.
    pub fn copied(&self) -> (r: Self)
        ensures
            r == *self,
    {
        ProjectConfig {
            project_id: self.project_id.clone(),
            project_name: self.project_name.clone(),
            screen_id: self.screen_id.clone(),
            screen_name: self.screen_name.clone(),
            sku_id: self.sku_id.clone(),
            sku_name: self.sku_name.clone(),
            price: self.price,
        }
    }
}

/// The most entries the project history keeps.
pub const PROJECT_HISTORY_LIMIT: usize = 100;

/// Emptying the order history writes an empty JSON array to `history.json`.
pub fn clear_history() -> (w: FileWrite)
    ensures
        w.file_name@ == "history.json"@,
        w.content@ == "[]"@,
{
    FileWrite { file_name: "history.json".to_string(), content: "[]".to_string() }
}

/// Saving cookies writes them, as given, to `cookies.json`.
pub fn save_cookies(cookies: String) -> (w: FileWrite)
    ensures
        w.file_name@ == "cookies.json"@,
        w.content@ == cookies@,
{
    FileWrite { file_name: "cookies.json".to_string(), content: cookies }
}

/// A new order goes to the front of the history.
pub fn add_history_item(history: Vec<HistoryItem>, item: HistoryItem) -> (r: Vec<HistoryItem>)
    ensures
        r@ == seq![item] + history@,
{
    let ghost before = history@;
    let mut history = history;
    history.insert(0, item);
    assert(history@ =~= seq![item] + before);
    history
}

/// An entry for a whole project (no SKU chosen).
pub open spec fn is_generic(p: ProjectConfig) -> bool {
    p.sku_id@.len() == 0
}

/// The generic entry of project `project_id`.
pub open spec fn is_generic_of(p: ProjectConfig, project_id: Seq<char>) -> bool {
    p.project_id@ == project_id && is_generic(p)
}

/// An entry of project `project_id` with a SKU chosen.
pub open spec fn is_specific_of(p: ProjectConfig, project_id: Seq<char>) -> bool {
    p.project_id@ == project_id && !is_generic(p)
}

pub open spec fn without_generic_of(h: Seq<ProjectConfig>, project_id: Seq<char>) -> Seq<
    ProjectConfig,
> {
    h.filter(|p: ProjectConfig| !is_generic_of(p, project_id))
}

/// Whether an entry has a SKU other than `sku_id`.
pub open spec fn other_sku(sku_id: Seq<char>) -> spec_fn(ProjectConfig) -> bool {
    |p: ProjectConfig| p.sku_id@ != sku_id
}

pub open spec fn without_sku(h: Seq<ProjectConfig>, sku_id: Seq<char>) -> Seq<ProjectConfig> {
    h.filter(other_sku(sku_id))
}

pub open spec fn cap_history(h: Seq<ProjectConfig>) -> Seq<ProjectConfig> {
    if h.len() > PROJECT_HISTORY_LIMIT {
        h.take(PROJECT_HISTORY_LIMIT as int)
    } else {
        h
    }
}

/// The project history after recording `item`. A generic entry replaces the
/// project's generic entry, and is left out while the project has an entry with
/// a SKU; an entry with a SKU replaces the entries of that SKU and the
/// project's generic entry. New entries go first; at most 100 are kept.
pub open spec fn add_project_history_spec(h: Seq<ProjectConfig>, item: ProjectConfig) -> Seq<
    ProjectConfig,
> {
    if is_generic(item) {
        let h1 = without_generic_of(h, item.project_id@);
        let has_specific = exists|i: int|
            0 <= i < h1.len() && is_specific_of(#[trigger] h1[i], item.project_id@);
        cap_history(if has_specific { h1 } else { seq![item] + h1 })
    } else {
        cap_history(seq![item] + without_generic_of(without_sku(h, item.sku_id@), item.project_id@))
    }
}

fn is_empty_string(s: &String) -> (b: bool)
    ensures
        b == (s@.len() == 0),
{
    s.as_str().is_empty()
}

fn retain_not_generic_of(h: &Vec<ProjectConfig>, project_id: &String) -> (r: Vec<ProjectConfig>)
    ensures
        r@ == without_generic_of(h@, project_id@),
{
    let mut out: Vec<ProjectConfig> = Vec::new();
    let mut i: usize = 0;
    while i < h.len()
        invariant
            i <= h.len(),
            out@ == without_generic_of(h@.take(i as int), project_id@),
        decreases h.len() - i,
    {
        proof {
            reveal_with_fuel(Seq::<_>::filter, 1);
            assert(h@.take(i + 1).drop_last() =~= h@.take(i as int));
        }
        let p = &h[i];
        if !(p.project_id == *project_id && is_empty_string(&p.sku_id)) {
            out.push(p.copied());
        }
        i = i + 1;
    }
    assert(h@.take(h.len() as int) =~= h@);
    out
}

fn retain_other_skus(h: &Vec<ProjectConfig>, sku_id: &String) -> (r: Vec<ProjectConfig>)
    ensures
        r@ == without_sku(h@, sku_id@),
{
    let mut out: Vec<ProjectConfig> = Vec::new();
    let mut i: usize = 0;
    while i < h.len()
        invariant
            i <= h.len(),
            out@ == without_sku(h@.take(i as int), sku_id@),
        decreases h.len() - i,
    {
        proof {
            reveal_with_fuel(Seq::<_>::filter, 1);
            assert(h@.take(i + 1).drop_last() =~= h@.take(i as int));
        }
        let p = &h[i];
        if p.sku_id != *sku_id {
            out.push(p.copied());
        }
        i = i + 1;
    }
    assert(h@.take(h.len() as int) =~= h@);
    out
}

fn cap(h: Vec<ProjectConfig>) -> (r: Vec<ProjectConfig>)
    ensures
        r@ == cap_history(h@),
{
    let mut h = h;
    if h.len() > PROJECT_HISTORY_LIMIT {
        h.truncate(PROJECT_HISTORY_LIMIT);
    }
    h
}

/// Records `item` in the project history (see `add_project_history_spec`).
pub fn add_project_history(history: Vec<ProjectConfig>, item: ProjectConfig) -> (r: Vec<
    ProjectConfig,
>)
    ensures
        r@ == add_project_history_spec(history@, item),
{
    if is_empty_string(&item.sku_id) {
        let mut h1 = retain_not_generic_of(&history, &item.project_id);
        let mut has_specific = false;
        let mut i: usize = 0;
        while i < h1.len()
            invariant
                i <= h1.len(),
                has_specific == exists|j: int|
                    0 <= j < i && is_specific_of(#[trigger] h1@[j], item.project_id@),
            decreases h1.len() - i,
        {
            if h1[i].project_id == item.project_id && !is_empty_string(&h1[i].sku_id) {
                has_specific = true;
            }
            i = i + 1;
        }
        let ghost g1 = h1@;
        if !has_specific {
            h1.insert(0, item);
            assert(h1@ =~= seq![item] + g1);
        }
        cap(h1)
    } else {
        let h1 = retain_other_skus(&history, &item.sku_id);
        let mut h2 = retain_not_generic_of(&h1, &item.project_id);
        let ghost g2 = h2@;
        h2.insert(0, item);
        assert(h2@ =~= seq![item] + g2);
        cap(h2)
    }
}

pub open spec fn without_entry(h: Seq<ProjectConfig>, project_id: Seq<char>, sku_id: Seq<char>) -> Seq<
    ProjectConfig,
> {
    h.filter(|p: ProjectConfig| !(p.project_id@ == project_id && p.sku_id@ == sku_id))
}

/// Removes the entries of project `project_id` with SKU `sku_id`.
pub fn remove_project_history_item(
    history: Vec<ProjectConfig>,
    project_id: String,
    sku_id: String,
) -> (r: Vec<ProjectConfig>)
    ensures
        r@ == without_entry(history@, project_id@, sku_id@),
{
    let mut out: Vec<ProjectConfig> = Vec::new();
    let mut i: usize = 0;
    while i < history.len()
        invariant
            i <= history.len(),
            out@ == without_entry(history@.take(i as int), project_id@, sku_id@),
        decreases history.len() - i,
    {
        proof {
            reveal_with_fuel(Seq::<_>::filter, 1);
            assert(history@.take(i + 1).drop_last() =~= history@.take(i as int));
        }
        let p = &history[i];
        if !(p.project_id == project_id && p.sku_id == sku_id) {
            out.push(p.copied());
        }
        i = i + 1;
    }
    assert(history@.take(history.len() as int) =~= history@);
    out
}

/// Why stored data was refused.
#[derive(Clone, Copy, Debug, PartialEq, Eq, Structural)]
pub enum StorageError {
    /// The saved task list must be a JSON array.
    TasksNotArray,
    /// The saved settings must be a JSON object.
    SettingsNotObject,
}

/// The saved tasks: what `tasks.json` holds, or an empty list when the file is
/// missing or does not parse (`None`).
pub fn get_tasks(stored: Option<Json>) -> (r: Json)
    ensures
        r@ == match stored {
            Some(j) => j@,
            None => JsonV::Array(seq![]),
        },
{
    match stored {
        Some(j) => j,
        None => Json::Array(Vec::new()),
    }
}

/// The saved settings: what `settings.json` holds, or an empty object when the
/// file is missing or does not parse (`None`).
pub fn get_settings(stored: Option<Json>) -> (r: Json)
    ensures
        r@ == match stored {
            Some(j) => j@,
            None => JsonV::Object(seq![]),
        },
{
    match stored {
        Some(j) => j,
        None => Json::Object(Vec::new()),
    }
}

/// Only a JSON array is saved as the task list.
pub fn check_tasks(tasks: &Json) -> (r: Result<(), StorageError>)
    ensures
        r is Ok <==> tasks@ is Array,
        r is Err ==> r == Err::<(), StorageError>(StorageError::TasksNotArray),
{
    match tasks {
        Json::Array(_) => Ok(()),
        _ => Err(StorageError::TasksNotArray),
    }
}

/// Only a JSON object is saved as the settings.
pub fn check_settings(settings: &Json) -> (r: Result<(), StorageError>)
    ensures
        r is Ok <==> settings@ is Object,
        r is Err ==> r == Err::<(), StorageError>(StorageError::SettingsNotObject),
{
    match settings {
        Json::Object(_) => Ok(()),
        _ => Err(StorageError::SettingsNotObject),
    }
}

/// The saved cookies: what `cookies.json` holds, empty when there is no such file.
pub fn load_cookies(stored: Option<String>) -> (r: String)
    ensures
        r@ == match stored {
            Some(c) => c@,
            None => Seq::<char>::empty(),
        },
{
    match stored {
        Some(c) => c,
        None => String::new(),
    }
}

/// The project history never holds more than 100 entries after a change.
pub proof fn law_project_history_capped(history: Seq<ProjectConfig>, item: ProjectConfig)
    ensures
        add_project_history_spec(history, item).len() <= PROJECT_HISTORY_LIMIT,
{
}

/// An entry with a SKU goes first, and afterwards no other entry has its SKU
/// and its project keeps no generic entry.
pub proof fn law_specific_entry_leads(history: Seq<ProjectConfig>, item: ProjectConfig)
    requires
        !is_generic(item),
    ensures
        ({
            let r = add_project_history_spec(history, item);
            &&& r.len() >= 1
            &&& r[0] == item
            &&& forall|i: int|
                1 <= i < r.len() ==> (#[trigger] r[i]).sku_id@ != item.sku_id@ && !is_generic_of(
                    r[i],
                    item.project_id@,
                )
        }),
{
    broadcast use vstd::seq_lib::group_filter_ensures;

    let pid = item.project_id@;
    let sku = item.sku_id@;
    let f1 = without_sku(history, sku);
    let f2 = without_generic_of(f1, pid);
    let full = seq![item] + f2;
    let r = add_project_history_spec(history, item);
    assert(r == cap_history(full));
    assert forall|i: int| 1 <= i < r.len() implies (#[trigger] r[i]).sku_id@ != sku && !is_generic_of(
        r[i],
        pid,
    ) by {
        assert(r[i] == full[i]);
        let x = f2[i - 1];
        assert(full[i] == x);
        assert(!is_generic_of(x, pid));
        assert(f2.contains(x));
        f1.lemma_filter_contains_rev(|p: ProjectConfig| !is_generic_of(p, pid), x);
        let k = choose|k: int| 0 <= k < f1.len() && f1[k] == x;
        assert(f1[k].sku_id@ != sku);
    }
}

/// A generic entry leaves its project with at most one generic entry, the
/// new one at the front; and it is not added while the project has an entry
/// with a SKU.
pub proof fn law_generic_entry_unique(history: Seq<ProjectConfig>, item: ProjectConfig)
    requires
        is_generic(item),
    ensures
        ({
            let r = add_project_history_spec(history, item);
            forall|i: int|
                0 <= i < r.len() && is_generic_of(#[trigger] r[i], item.project_id@) ==> i == 0
                    && r[i] == item
        }),
{
    broadcast use vstd::seq_lib::group_filter_ensures;

    let pid = item.project_id@;
    let f = without_generic_of(history, pid);
    let r = add_project_history_spec(history, item);
    let has_specific = exists|i: int| 0 <= i < f.len() && is_specific_of(#[trigger] f[i], pid);
    let full = if has_specific { f } else { seq![item] + f };
    assert(r == cap_history(full));
    assert forall|i: int| 0 <= i < r.len() && is_generic_of(#[trigger] r[i], pid) implies i == 0
        && r[i] == item by {
        assert(r[i] == full[i]);
        if has_specific {
            assert(!is_generic_of(f[i], pid));
        } else if i > 0 {
            assert(full[i] == f[i - 1]);
            assert(!is_generic_of(f[i - 1], pid));
        }
    }
}

proof fn lemma_filter_filter(
    h: Seq<ProjectConfig>,
    p1: spec_fn(ProjectConfig) -> bool,
    p2: spec_fn(ProjectConfig) -> bool,
    p3: spec_fn(ProjectConfig) -> bool,
)
    requires
        forall|x: ProjectConfig| #[trigger] p3(x) == (p1(x) && p2(x)),
    ensures
        h.filter(p1).filter(p2) == h.filter(p3),
    decreases h.len(),
{
    reveal_with_fuel(Seq::<_>::filter, 1);
    if h.len() > 0 {
        lemma_filter_filter(h.drop_last(), p1, p2, p3);
        let f = h.drop_last().filter(p1);
        if p1(h.last()) {
            assert(f.push(h.last()).drop_last() =~= f);
            assert(f.push(h.last()).last() == h.last());
        }
        assert(p3(h.last()) == (p1(h.last()) && p2(h.last())));
    }
}

/// Whether an earlier entry stays when `item`, an entry with a SKU, is
/// recorded: it has another SKU and is not the generic entry of `item`'s project.
pub open spec fn stays_beside(item: ProjectConfig) -> spec_fn(ProjectConfig) -> bool {
    |p: ProjectConfig|
        p.sku_id@ != item.sku_id@ && !(p.project_id@ == item.project_id@ && p.sku_id@.len() == 0)
}

/// An entry with a SKU goes first and is followed, in their order, by exactly
/// the earlier entries that have another SKU and are not its project's
/// generic entry; at most 100 entries are kept. Other SKUs of the same
/// project, and other projects, stay.
pub proof fn law_specific_entry_keeps_the_rest(history: Seq<ProjectConfig>, item: ProjectConfig)
    requires
        item.sku_id@.len() > 0,
    ensures
        ({
            let full = seq![item] + history.filter(stays_beside(item));
            add_project_history_spec(history, item) == if full.len() > 100 {
                full.take(100)
            } else {
                full
            }
        }),
{
    let pid = item.project_id@;
    lemma_filter_filter(
        history,
        other_sku(item.sku_id@),
        |p: ProjectConfig| !is_generic_of(p, pid),
        stays_beside(item),
    );
}

/// Whether an earlier entry stays when `item`, a generic entry, is recorded:
/// it is not the generic entry of `item`'s project.
pub open spec fn stays_beside_generic(item: ProjectConfig) -> spec_fn(ProjectConfig) -> bool {
    |p: ProjectConfig| !(p.project_id@ == item.project_id@ && p.sku_id@.len() == 0)
}

/// A generic entry goes first, replacing its project's generic entry, unless
/// the project already has an entry with a SKU; then only the old generic
/// entry goes. Every other entry stays, in order; at most 100 are kept.
pub proof fn law_generic_entry_keeps_the_rest(history: Seq<ProjectConfig>, item: ProjectConfig)
    requires
        item.sku_id@.len() == 0,
    ensures
        ({
            let kept = history.filter(stays_beside_generic(item));
            let has_sku_entry = exists|i: int|
                0 <= i < history.len() && (#[trigger] history[i]).project_id@ == item.project_id@
                    && history[i].sku_id@.len() > 0;
            let full = if has_sku_entry {
                kept
            } else {
                seq![item] + kept
            };
            add_project_history_spec(history, item) == if full.len() > 100 {
                full.take(100)
            } else {
                full
            }
        }),
{
    broadcast use vstd::seq_lib::group_filter_ensures;

    let pid = item.project_id@;
    let h1 = without_generic_of(history, pid);
    lemma_filter_true(history);
    lemma_filter_filter(
        history,
        |p: ProjectConfig| true,
        |p: ProjectConfig| !is_generic_of(p, pid),
        stays_beside_generic(item),
    );
    assert(h1 == history.filter(stays_beside_generic(item)));
    let has_sku_entry = exists|i: int|
        0 <= i < history.len() && (#[trigger] history[i]).project_id@ == item.project_id@
            && history[i].sku_id@.len() > 0;
    let has_specific = exists|i: int| 0 <= i < h1.len() && is_specific_of(#[trigger] h1[i], pid);
    if has_sku_entry {
        let i = choose|i: int|
            0 <= i < history.len() && (#[trigger] history[i]).project_id@ == item.project_id@
                && history[i].sku_id@.len() > 0;
        history.lemma_filter_contains(|p: ProjectConfig| !is_generic_of(p, pid), i);
        let k = choose|k: int| 0 <= k < h1.len() && h1[k] == history[i];
        assert(is_specific_of(h1[k], pid));
    }
    if has_specific {
        let k = choose|k: int| 0 <= k < h1.len() && is_specific_of(#[trigger] h1[k], pid);
        assert(h1.contains(h1[k]));
        history.lemma_filter_contains_rev(|p: ProjectConfig| !is_generic_of(p, pid), h1[k]);
        let i = choose|i: int| 0 <= i < history.len() && history[i] == h1[k];
        assert(history[i].project_id@ == item.project_id@ && history[i].sku_id@.len() > 0);
    }
    assert(has_sku_entry == has_specific);
}

proof fn lemma_filter_true(h: Seq<ProjectConfig>)
    ensures
        h.filter(|p: ProjectConfig| true) == h,
    decreases h.len(),
{
    reveal_with_fuel(Seq::<_>::filter, 1);
    if h.len() > 0 {
        lemma_filter_true(h.drop_last());
        assert(h.drop_last().push(h.last()) =~= h);
    }
}

/// A new order comes first in the history, before all earlier ones.
pub proof fn law_new_order_first(history: Seq<HistoryItem>, item: HistoryItem)
    ensures
        (seq![item] + history)[0] == item,
        (seq![item] + history).drop_first() == history,
{
    assert((seq![item] + history).drop_first() =~= history);
}

} // verus!
