//! The background memory tasks: which steps a cleaning runs, when the timed
//! cleaning is due, when a game start triggers one, and how a restarted or
//! stopped worker learns that it is stale.

use vstd::prelude::*;
use crate::text::{str_eq, strs, copy_string};

verus! {

/// `MemoryFlushModifiedList`.
pub const MEMORY_FLUSH_MODIFIED_LIST: u32 = 3;
/// `MemoryPurgeStandbyList`.
pub const MEMORY_PURGE_STANDBY_LIST: u32 = 4;
/// `MemoryPurgeLowPriorityStandbyList`.
pub const MEMORY_PURGE_LOW_PRIORITY_STANDBY_LIST: u32 = 5;

/// One step of a memory cleaning.
#[derive(PartialEq, Eq, Structural, Clone, Copy)]
pub enum CleanStep {
    /// Flush the registry cache.
    FlushRegistry,
    /// Combine identical memory pages.
    CombinePages,
    /// Send a memory list command.
    Purge(u32),
    /// Give back the file cache.
    ReclaimFileCache,
    /// Trim the working sets of other processes.
    TrimWorkingSets,
}

/// The steps that the chosen items call for at once, in item order.
pub open spec fn inline_steps(items: Seq<Seq<char>>) -> Seq<CleanStep>
    decreases items.len(),
{
    if items.len() == 0 {
        Seq::empty()
    } else {
        let prev = inline_steps(items.drop_last());
        let it = items.last();
        if it == "registry"@ {
            prev.push(CleanStep::FlushRegistry)
        } else if it == "combined"@ {
            prev.push(CleanStep::CombinePages)
        } else {
            prev
        }
    }
}

/// The memory list commands of the chosen items, in item order.
pub open spec fn purge_steps(items: Seq<Seq<char>>) -> Seq<CleanStep>
    decreases items.len(),
{
    if items.len() == 0 {
        Seq::empty()
    } else {
        let prev = purge_steps(items.drop_last());
        let it = items.last();
        if it == "standby"@ {
            prev.push(CleanStep::Purge(MEMORY_PURGE_STANDBY_LIST))
        } else if it == "low_pri_standby"@ {
            prev.push(CleanStep::Purge(MEMORY_PURGE_LOW_PRIORITY_STANDBY_LIST))
        } else if it == "modified"@ {
            prev.push(CleanStep::Purge(MEMORY_FLUSH_MODIFIED_LIST))
        } else {
            prev
        }
    }
}

/// The steps of a cleaning of the chosen items: the registry and page steps
/// as they come, then the list commands, then the file cache, then the
/// working sets (each of the last two once, if chosen); unknown items do
/// nothing.
pub open spec fn clean_plan_spec(items: Seq<Seq<char>>) -> Seq<CleanStep> {
    inline_steps(items) + purge_steps(items) + (if items.contains("file_cache"@) {
        seq![CleanStep::ReclaimFileCache]
    } else {
        Seq::empty()
    }) + (if items.contains("working_set"@) {
        seq![CleanStep::TrimWorkingSets]
    } else {
        Seq::empty()
    })
}

/// The steps of a cleaning of the chosen items (see `clean_plan_spec`).
pub fn memory_clean_plan(items: &Vec<String>) -> (r: Vec<CleanStep>)
    ensures
        r@ == clean_plan_spec(strs(items@)),
{
    let ghost iv = strs(items@);
    let mut inline: Vec<CleanStep> = Vec::new();
    let mut purges: Vec<CleanStep> = Vec::new();
    let mut file_cache = false;
    let mut working_set = false;
    let mut i: usize = 0;
    while i < items.len()
        invariant
            i <= items@.len(),
            iv == strs(items@),
            inline@ == inline_steps(iv.subrange(0, i as int)),
            purges@ == purge_steps(iv.subrange(0, i as int)),
            file_cache == iv.subrange(0, i as int).contains("file_cache"@),
            working_set == iv.subrange(0, i as int).contains("working_set"@),
        decreases items.len() - i,
    {
        let ghost pre = iv.subrange(0, i + 1);
        assert(pre.drop_last() =~= iv.subrange(0, i as int));
        assert(pre.last() == items@[i as int]@);
        let it = items[i].as_str();
        if str_eq(it, "standby") {
            purges.push(CleanStep::Purge(MEMORY_PURGE_STANDBY_LIST));
        } else if str_eq(it, "low_pri_standby") {
            purges.push(CleanStep::Purge(MEMORY_PURGE_LOW_PRIORITY_STANDBY_LIST));
        } else if str_eq(it, "modified") {
            purges.push(CleanStep::Purge(MEMORY_FLUSH_MODIFIED_LIST));
        } else if str_eq(it, "registry") {
            inline.push(CleanStep::FlushRegistry);
        } else if str_eq(it, "combined") {
            inline.push(CleanStep::CombinePages);
        } else if str_eq(it, "file_cache") {
            file_cache = true;
        } else if str_eq(it, "working_set") {
            working_set = true;
        }
        proof {
            reveal_strlit("standby");
            reveal_strlit("low_pri_standby");
            reveal_strlit("modified");
            reveal_strlit("registry");
            reveal_strlit("combined");
            reveal_strlit("file_cache");
            reveal_strlit("working_set");
            assert("modified"@[0] != "registry"@[0] && "modified"@[0] != "combined"@[0] && "combined"@[0] != "registry"@[0]);
            assert("standby"@.len() != "registry"@.len() && "standby"@.len() != "combined"@.len());
            assert("low_pri_standby"@.len() != "registry"@.len() && "low_pri_standby"@.len() != "combined"@.len());
            assert("file_cache"@.len() != "registry"@.len() && "working_set"@.len() != "registry"@.len());
            assert("file_cache"@.len() != "combined"@.len() && "working_set"@.len() != "combined"@.len());
            assert forall|s: Seq<char>| pre.contains(s) <==> (iv.subrange(0, i as int).contains(s) || s == pre.last()) by {
                if pre.contains(s) {
                    let k = choose|k: int| 0 <= k < pre.len() && pre[k] == s;
                    if k < i {
                        assert(iv.subrange(0, i as int)[k] == s);
                    }
                }
                if iv.subrange(0, i as int).contains(s) {
                    let k = choose|k: int| 0 <= k < i && iv.subrange(0, i as int)[k] == s;
                    assert(pre[k] == s);
                }
                if s == pre.last() {
                    assert(pre[i as int] == s);
                }
            }
        }
        i = i + 1;
    }
    assert(iv.subrange(0, iv.len() as int) =~= iv);
    let mut out = inline;
    let mut k: usize = 0;
    let ghost start = out@;
    while k < purges.len()
        invariant
            k <= purges@.len(),
            out@ == start + purges@.subrange(0, k as int),
        decreases purges.len() - k,
    {
        out.push(purges[k]);
        k = k + 1;
        assert(out@ =~= start + purges@.subrange(0, k as int));
    }
    assert(purges@.subrange(0, purges@.len() as int) =~= purges@);
    if file_cache {
        out.push(CleanStep::ReclaimFileCache);
    }
    if working_set {
        out.push(CleanStep::TrimWorkingSets);
    }
    assert(out@ =~= clean_plan_spec(iv));
    out
}

/// What a timed cleaning does.
#[derive(PartialEq, Eq, Structural, Clone, Copy)]
pub enum AutoCleanAction {
    /// The standby lists and the working sets, side by side.
    All,
    /// The standby lists.
    Standby,
    /// The working sets.
    WorkingSet,
    /// The items chosen for manual cleaning.
    Items,
    /// Nothing (an unknown kind).
    Nothing,
}

/// What a timed cleaning of the configured kind does.
pub fn auto_clean_action(clean_type: &str) -> (r: AutoCleanAction)
    ensures
        r == if clean_type@ == "all"@ {
            AutoCleanAction::All
        } else if clean_type@ == "standby"@ {
            AutoCleanAction::Standby
        } else if clean_type@ == "working_set"@ {
            AutoCleanAction::WorkingSet
        } else if clean_type@ == "items"@ {
            AutoCleanAction::Items
        } else {
            AutoCleanAction::Nothing
        },
{
    if str_eq(clean_type, "all") {
        AutoCleanAction::All
    } else if str_eq(clean_type, "standby") {
        AutoCleanAction::Standby
    } else if str_eq(clean_type, "working_set") {
        AutoCleanAction::WorkingSet
    } else if str_eq(clean_type, "items") {
        AutoCleanAction::Items
    } else {
        AutoCleanAction::Nothing
    }
}

/// Whether the timed cleaning is due: its interval has passed since the
/// last one, or the memory in use reached the threshold.
pub fn auto_clean_due(elapsed_secs: u64, interval_seconds: u64, used_mb: u64, threshold_mb: u64) -> (b: bool)
    ensures
        b == (elapsed_secs >= interval_seconds || used_mb >= threshold_mb),
{
    elapsed_secs >= interval_seconds || used_mb >= threshold_mb
}

/// The items cleaned when none were saved.
pub fn clean_items_or_default(saved: Option<&Vec<String>>) -> (r: Vec<String>)
    ensures
        strs(r@) == match saved {
            Some(v) => strs(v@),
            None => seq!["standby"@, "file_cache"@, "low_pri_standby"@],
        },
{
    match saved {
        Some(v) => {
            let mut out: Vec<String> = Vec::new();
            let mut i: usize = 0;
            while i < v.len()
                invariant
                    i <= v@.len(),
                    strs(out@) == strs(v@).subrange(0, i as int),
                decreases v.len() - i,
            {
                let s = copy_string(&v[i]);
                let ghost before = strs(out@);
                out.push(s);
                assert(strs(out@) =~= before.push(s@));
                i = i + 1;
                assert(strs(out@) =~= strs(v@).subrange(0, i as int));
            }
            assert(strs(v@).subrange(0, v@.len() as int) =~= strs(v@));
            out
        },
        None => crate::optimization::default_memory_clean_items(),
    }
}

/// The generation of a background worker: each start and each stop begins a
/// new one, and a worker keeps running only while its own is current.
pub struct WorkerGeneration {
    pub current: u64,
}

impl WorkerGeneration {
    /// Begins a new generation for a worker being started, and returns it.
    pub fn start(&mut self) -> (g: u64)
        ensures
            final(self).current == old(self).current.wrapping_add(1),
            g == final(self).current,
    {
        self.current = self.current.wrapping_add(1);
        self.current
    }

    /// Begins a new generation so that running workers stop.
    pub fn stop(&mut self)
        ensures
            final(self).current == old(self).current.wrapping_add(1),
    {
        self.current = self.current.wrapping_add(1);
    }

    /// Whether a worker of generation `g` goes on.
    pub fn still_current(&self, g: u64) -> (b: bool)
        ensures
            b == (g == self.current),
    {
        g == self.current
    }
}

/// A worker that was started is stale once another start or a stop came
/// after it.
pub proof fn law_restart_retires_worker(before: u64, g: u64)
    requires
        g == before,
    ensures
        g != before.wrapping_add(1),
{
    assert(before.wrapping_add(1) != before) by (bit_vector);
}

/// The watch for game starts: one cleaning when a listed game starts running.
pub struct GameStartWatch {
    pub was_running: bool,
}

impl GameStartWatch {
    /// One look at the processes: clean when enabled and a game runs that did
    /// not run at the last look.  While disabled, a running game is forgotten.
    pub fn observe(&mut self, enabled: bool, running: bool) -> (clean: bool)
        ensures
            clean == (enabled && running && !old(self).was_running),
            final(self).was_running == (enabled && running),
    {
        if !enabled {
            self.was_running = false;
            return false;
        }
        let clean = running && !self.was_running;
        self.was_running = running;
        clean
    }
}


/// What the anti-cheat watch reports.
pub struct AceAutoDetectStats {
    pub is_running: bool,
    pub last_check: Option<String>,
    pub total_optimized: u32,
    pub currently_optimized: Vec<String>,
}

impl AceAutoDetectStats {
    /// Records one pass of the watch at `now`: the processes it changed this
    /// time, added (saturating) to the total.
    pub fn record_pass(&mut self, optimized: Vec<String>, now: String)
        ensures
            final(self).is_running,
            final(self).last_check is Some && final(self).last_check->0@ == now@,
            final(self).total_optimized as int == if old(self).total_optimized as int + optimized@.len() > u32::MAX {
                u32::MAX as int
            } else {
                old(self).total_optimized as int + optimized@.len()
            },
            final(self).currently_optimized@ == optimized@,
    {
        self.is_running = true;
        self.last_check = Some(now);
        let n = optimized.len();
        self.total_optimized = if n > (u32::MAX - self.total_optimized) as usize {
            u32::MAX
        } else {
            self.total_optimized + n as u32
        };
        self.currently_optimized = optimized;
    }
}


/// The step a chosen item stands for, if it is a known item.
pub open spec fn item_step(it: Seq<char>) -> Option<CleanStep> {
    if it == "standby"@ {
        Some(CleanStep::Purge(MEMORY_PURGE_STANDBY_LIST))
    } else if it == "low_pri_standby"@ {
        Some(CleanStep::Purge(MEMORY_PURGE_LOW_PRIORITY_STANDBY_LIST))
    } else if it == "modified"@ {
        Some(CleanStep::Purge(MEMORY_FLUSH_MODIFIED_LIST))
    } else if it == "registry"@ {
        Some(CleanStep::FlushRegistry)
    } else if it == "combined"@ {
        Some(CleanStep::CombinePages)
    } else if it == "file_cache"@ {
        Some(CleanStep::ReclaimFileCache)
    } else if it == "working_set"@ {
        Some(CleanStep::TrimWorkingSets)
    } else {
        None
    }
}

proof fn lemma_item_names_differ()
    ensures
        "standby"@ != "low_pri_standby"@,
        "standby"@ != "modified"@,
        "low_pri_standby"@ != "modified"@,
        "registry"@ != "combined"@,
        "registry"@ != "standby"@ && "registry"@ != "low_pri_standby"@ && "registry"@ != "modified"@,
        "combined"@ != "standby"@ && "combined"@ != "low_pri_standby"@ && "combined"@ != "modified"@,
        "file_cache"@ != "standby"@ && "file_cache"@ != "low_pri_standby"@ && "file_cache"@ != "modified"@,
        "file_cache"@ != "registry"@ && "file_cache"@ != "combined"@,
        "working_set"@ != "standby"@ && "working_set"@ != "low_pri_standby"@ && "working_set"@ != "modified"@,
        "working_set"@ != "registry"@ && "working_set"@ != "combined"@ && "working_set"@ != "file_cache"@,
{
    reveal_strlit("standby");
    reveal_strlit("low_pri_standby");
    reveal_strlit("modified");
    reveal_strlit("registry");
    reveal_strlit("combined");
    reveal_strlit("file_cache");
    reveal_strlit("working_set");
    assert("standby"@.len() != "low_pri_standby"@.len());
    assert("standby"@[0] != "modified"@[0]);
    assert("low_pri_standby"@.len() != "modified"@.len());
    assert("registry"@[0] != "combined"@[0]);
    assert("registry"@[0] != "standby"@[0] && "registry"@.len() != "low_pri_standby"@.len() && "registry"@[0] != "modified"@[0]);
    assert("combined"@[0] != "standby"@[0] && "combined"@.len() != "low_pri_standby"@.len() && "combined"@[0] != "modified"@[0]);
    assert("file_cache"@[0] != "standby"@[0] && "file_cache"@.len() != "low_pri_standby"@.len() && "file_cache"@[0] != "modified"@[0]);
    assert("file_cache"@[0] != "registry"@[0] && "file_cache"@[0] != "combined"@[0]);
    assert("working_set"@[0] != "standby"@[0] && "working_set"@.len() != "low_pri_standby"@.len() && "working_set"@[0] != "modified"@[0]);
    assert("working_set"@[0] != "registry"@[0] && "working_set"@[0] != "combined"@[0] && "working_set"@[0] != "file_cache"@[0]);
}

proof fn lemma_purge_has(items: Seq<Seq<char>>, i: int)
    requires
        0 <= i < items.len(),
        items[i] == "standby"@ || items[i] == "low_pri_standby"@ || items[i] == "modified"@,
    ensures
        purge_steps(items).contains(item_step(items[i])->Some_0),
    decreases items.len(),
{
    lemma_item_names_differ();
    let prev = purge_steps(items.drop_last());
    if i == items.len() - 1 {
        assert(purge_steps(items) == prev.push(item_step(items[i])->Some_0));
        assert(purge_steps(items)[prev.len() as int] == item_step(items[i])->Some_0);
    } else {
        assert(items.drop_last()[i] == items[i]);
        lemma_purge_has(items.drop_last(), i);
        let k = choose|k: int| 0 <= k < prev.len() && prev[k] == item_step(items[i])->Some_0;
        assert(purge_steps(items)[k] == prev[k]);
    }
}

proof fn lemma_inline_has(items: Seq<Seq<char>>, i: int)
    requires
        0 <= i < items.len(),
        items[i] == "registry"@ || items[i] == "combined"@,
    ensures
        inline_steps(items).contains(item_step(items[i])->Some_0),
    decreases items.len(),
{
    lemma_item_names_differ();
    let prev = inline_steps(items.drop_last());
    if i == items.len() - 1 {
        assert(inline_steps(items)[prev.len() as int] == item_step(items[i])->Some_0);
    } else {
        assert(items.drop_last()[i] == items[i]);
        lemma_inline_has(items.drop_last(), i);
        let k = choose|k: int| 0 <= k < prev.len() && prev[k] == item_step(items[i])->Some_0;
        assert(inline_steps(items)[k] == prev[k]);
    }
}

/// Every known item chosen contributes its own step to the cleaning: the
/// standby, low-priority standby and modified lists their list command, the
/// registry its flush, `combined` the page combining, `file_cache` the file
/// cache and `working_set` the trimming.
pub proof fn law_each_item_has_its_step(items: Seq<Seq<char>>, i: int)
    requires
        0 <= i < items.len(),
        item_step(items[i]) is Some,
    ensures
        clean_plan_spec(items).contains(item_step(items[i])->Some_0),
{
    lemma_item_names_differ();
    let a = inline_steps(items);
    let b = purge_steps(items);
    let c: Seq<CleanStep> = if items.contains("file_cache"@) { seq![CleanStep::ReclaimFileCache] } else { Seq::empty() };
    let d: Seq<CleanStep> = if items.contains("working_set"@) { seq![CleanStep::TrimWorkingSets] } else { Seq::empty() };
    let plan = clean_plan_spec(items);
    assert(plan == a + b + c + d);
    let x = item_step(items[i])->Some_0;
    if items[i] == "registry"@ || items[i] == "combined"@ {
        lemma_inline_has(items, i);
        let k = choose|k: int| 0 <= k < a.len() && a[k] == x;
        assert(plan[k] == x);
    } else if items[i] == "standby"@ || items[i] == "low_pri_standby"@ || items[i] == "modified"@ {
        lemma_purge_has(items, i);
        let k = choose|k: int| 0 <= k < b.len() && b[k] == x;
        assert(plan[a.len() + k] == x);
    } else if items[i] == "file_cache"@ {
        assert(items.contains("file_cache"@));
        assert(plan[(a.len() + b.len()) as int] == x);
    } else {
        assert(items[i] == "working_set"@);
        assert(items.contains("working_set"@));
        assert(plan[(a.len() + b.len() + c.len()) as int] == x);
    }
}

/// The three list commands are different commands.
pub proof fn law_list_commands_differ()
    ensures
        MEMORY_PURGE_STANDBY_LIST != MEMORY_PURGE_LOW_PRIORITY_STANDBY_LIST,
        MEMORY_PURGE_STANDBY_LIST != MEMORY_FLUSH_MODIFIED_LIST,
        MEMORY_PURGE_LOW_PRIORITY_STANDBY_LIST != MEMORY_FLUSH_MODIFIED_LIST,
{
}

} // verus!
