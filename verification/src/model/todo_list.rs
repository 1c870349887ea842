//! The task store: owns the ordered task collection, allocates
//! hexadecimal ids from a strictly increasing counter, and remembers the
//! name of its backing file. Every mutation is specified as a transition
//! on the store's mathematical model.

use vstd::prelude::*;
use vstd::string::StringExecFns;
use crate::model::json::json_tasks;
use crate::model::json::json_to_tasks;
use crate::model::json::lemma_json_round_trip;
use crate::model::json::p_document;
use crate::model::json::tasks_to_json;
use crate::model::priority::Priority;
use crate::model::task::Task;
use crate::model::task::TaskM;
use crate::numerals::hex_chars;
use crate::numerals::hex_num;
use crate::numerals::hex_of;
use crate::numerals::is_hex_numeral;
use crate::numerals::lemma_hex_of_num;
use crate::numerals::parse_hex_u32;
use crate::text::chars_to_string;
use crate::text::str_eq;
use crate::text::str_to_chars;

verus! {

/// The model of a task store.
#[verifier::ext_equal]
pub struct StoreM {
    pub tasks: Seq<TaskM>,
    pub next_id: nat,
    pub file_name: Seq<char>,
}

/// The models of a sequence of task records.
pub open spec fn tasks_model(ts: Seq<Task>) -> Seq<TaskM> {
    ts.map(|_i: int, t: Task| t@)
}

/// The index of the first task with the given id, or -1 if the id is
/// absent.
pub open spec fn find_task(tasks: Seq<TaskM>, id: Seq<char>) -> int
    decreases tasks.len(),
{
    if tasks.len() == 0 {
        -1
    } else if tasks[0].id == id {
        0
    } else {
        let r = find_task(tasks.drop_first(), id);
        if r == -1 {
            -1
        } else {
            r + 1
        }
    }
}

/// `find_task` returns -1 exactly when the id is absent; otherwise it
/// returns the first index holding the id.
pub proof fn lemma_find_task(tasks: Seq<TaskM>, id: Seq<char>)
    ensures
        (find_task(tasks, id) == -1 <==> forall|i: int|
            0 <= i < tasks.len() ==> tasks[i].id != id),
        find_task(tasks, id) != -1 ==> 0 <= find_task(tasks, id) < tasks.len()
            && tasks[find_task(tasks, id)].id == id && forall|j: int|
            0 <= j < find_task(tasks, id) ==> tasks[j].id != id,
    decreases tasks.len(),
{
    if tasks.len() > 0 {
        lemma_find_task(tasks.drop_first(), id);
        assert(forall|i: int| 1 <= i < tasks.len() ==> tasks[i] == tasks.drop_first()[i - 1]);
    }
}

/// Adding a task: a record with the next counter value's hexadecimal
/// rendering as id is appended, not completed, and the counter advances.
pub open spec fn st_add(s: StoreM, description: Seq<char>, priority: Priority) -> StoreM {
    StoreM {
        tasks: s.tasks.push(
            TaskM { id: hex_of(s.next_id), description, priority, completed: false },
        ),
        next_id: s.next_id + 1,
        ..s
    }
}

/// Reinserting a full task record as-is, at the end; the counter is not
/// consulted.
pub open spec fn st_push(s: StoreM, t: TaskM) -> StoreM {
    StoreM { tasks: s.tasks.push(t), ..s }
}

/// Flipping the completion flag of the first task with the given id.
pub open spec fn st_toggle(s: StoreM, id: Seq<char>) -> StoreM {
    let i = find_task(s.tasks, id);
    let t = s.tasks[i];
    StoreM { tasks: s.tasks.update(i, TaskM { completed: !t.completed, ..t }), ..s }
}

/// Removing the first task with the given id, keeping the order of the
/// rest.
pub open spec fn st_remove(s: StoreM, id: Seq<char>) -> StoreM {
    StoreM { tasks: s.tasks.remove(find_task(s.tasks, id)), ..s }
}

/// Replacing description and priority of the first task with the given
/// id; its id and completion flag stay.
pub open spec fn st_edit(s: StoreM, id: Seq<char>, description: Seq<char>, priority: Priority)
    -> StoreM {
    let i = find_task(s.tasks, id);
    let t = s.tasks[i];
    StoreM { tasks: s.tasks.update(i, TaskM { description, priority, ..t }), ..s }
}

/// The store's id invariant: every present id is a hexadecimal numeral
/// whose value the counter strictly exceeds.
pub open spec fn ids_bounded(s: StoreM) -> bool {
    forall|i: int| 0 <= i < s.tasks.len() ==> is_hex_numeral(#[trigger] s.tasks[i].id)
        && hex_num(s.tasks[i].id) < s.next_id
}

/// A freshly allocated id differs from every id a bounded store holds,
/// and adding keeps the store bounded: ids are never reused.
pub proof fn lemma_add_fresh_id(s: StoreM, description: Seq<char>, priority: Priority)
    requires
        ids_bounded(s),
    ensures
        forall|i: int| 0 <= i < s.tasks.len() ==> (#[trigger] s.tasks[i].id) != hex_of(s.next_id),
        ids_bounded(st_add(s, description, priority)),
{
    lemma_hex_of_num(s.next_id);
    assert forall|i: int| 0 <= i < s.tasks.len() implies (#[trigger] s.tasks[i].id) != hex_of(
        s.next_id,
    ) by {
        if s.tasks[i].id == hex_of(s.next_id) {
            assert(hex_num(s.tasks[i].id) == s.next_id);
        }
    }
    let s2 = st_add(s, description, priority);
    assert forall|i: int| 0 <= i < s2.tasks.len() implies is_hex_numeral(
        #[trigger] s2.tasks[i].id,
    ) && hex_num(s2.tasks[i].id) < s2.next_id by {
        if i < s.tasks.len() {
            assert(s2.tasks[i] == s.tasks[i]);
        } else {
            assert(s2.tasks[i].id == hex_of(s.next_id));
        }
    }
}

/// The task store. `tasks` is the canonical display order; `next_id` is
/// seeded to 1 and never reused, even after removal; `file_name` is the
/// path of the backing JSON file.
#[derive(Debug)]
pub struct TodoList {
    pub tasks: Vec<Task>,
    pub next_id: u32,
    pub file_name: String,
}

impl View for TodoList {
    type V = StoreM;

    open spec fn view(&self) -> StoreM {
        StoreM {
            tasks: tasks_model(self.tasks@),
            next_id: self.next_id as nat,
            file_name: self.file_name@,
        }
    }
}

impl TodoList {
    /// A new, empty store, backed by the default file name.
    pub fn new() -> (r: TodoList)
        ensures
            r@.tasks == Seq::<TaskM>::empty(),
            r@.next_id == 1,
            r@.file_name == "todo_list.json"@,
    {
        let r = TodoList {
            tasks: Vec::new(),
            next_id: 1,
            file_name: String::from_str("todo_list.json"),
        };
        proof {
            assert(r@.tasks =~= Seq::<TaskM>::empty());
        }
        r
    }

    /// The index of the first task with the given id, if any.
    fn find_index(&self, id: &str) -> (r: Option<usize>)
        ensures
            match r {
                Some(i) => i == find_task(self@.tasks, id@),
                None => find_task(self@.tasks, id@) == -1,
            },
    {
        let n = self.tasks.len();
        let mut i: usize = 0;
        while i < n
            invariant
                i <= n,
                n == self.tasks@.len(),
                forall|j: int| 0 <= j < i ==> self@.tasks[j].id != id@,
            decreases n - i,
        {
            if str_eq(self.tasks[i].id.as_str(), id) {
                proof {
                    assert(self@.tasks[i as int].id == id@);
                    lemma_find_task(self@.tasks, id@);
                    let f = find_task(self@.tasks, id@);
                    assert(f != -1);
                    if f < i {
                        assert(self@.tasks[f].id == id@);
                    }
                    assert(f == i);
                }
                return Some(i);
            }
            i = i + 1;
        }
        proof {
            lemma_find_task(self@.tasks, id@);
        }
        None
    }

    /// Appends a new task with the next id, not completed, and advances
    /// the counter. Returns the new id.
    pub fn add_task(&mut self, description: String, priority: Priority) -> (id: String)
        requires
            old(self)@.next_id < u32::MAX,
        ensures
            final(self)@ == st_add(old(self)@, description@, priority),
            id@ == hex_of(old(self)@.next_id),
    {
        let id_chars = hex_chars(self.next_id);
        let id_new = chars_to_string(&id_chars);
        let id_out = id_new.clone();
        self.tasks.push(
            Task { id: id_new, description, priority, completed: false },
        );
        self.next_id = self.next_id + 1;
        proof {
            assert(self@.tasks =~= st_add(old(self)@, description@, priority).tasks);
            assert(self@ =~= st_add(old(self)@, description@, priority));
        }
        id_out
    }

    /// Reinserts a full task record as-is, at the end of the list.
    pub fn push_task(&mut self, task: Task)
        ensures
            final(self)@ == st_push(old(self)@, task@),
    {
        let ghost t = task@;
        self.tasks.push(task);
        proof {
            assert(self@.tasks =~= st_push(old(self)@, t).tasks);
            assert(self@ =~= st_push(old(self)@, t));
        }
    }

    /// The tasks, in display order.
    pub fn get_tasks(&self) -> (r: &Vec<Task>)
        ensures
            r@ == self.tasks@,
            tasks_model(r@) == self@.tasks,
    {
        &self.tasks
    }

    /// A mutable reference to the first task with the given id, if any.
    pub fn get_task_mut(&mut self, id: &str) -> (r: Option<&mut Task>)
        ensures
            find_task(old(self)@.tasks, id@) == -1 ==> r is None && *final(self) == *old(self),
            find_task(old(self)@.tasks, id@) != -1 ==> {
                let i = find_task(old(self)@.tasks, id@);
                &&& r is Some
                &&& (*r.unwrap())@ == old(self)@.tasks[i]
                &&& final(self)@.tasks == old(self)@.tasks.update(i, (*final(r.unwrap()))@)
                &&& final(self)@.next_id == old(self)@.next_id
                &&& final(self)@.file_name == old(self)@.file_name
            },
    {
        match self.find_index(id) {
            Some(i) => {
                proof {
                    lemma_find_task(old(self)@.tasks, id@);
                }
                let t = &mut self.tasks[i];
                Some(t)
            },
            None => None,
        }
    }

    /// Flips the completion flag of the task with the given id. The id
    /// must be present: absence is a contract violation, not a user
    /// error, because all callers validate existence first.
    pub fn toggle_task_status(&mut self, id: String)
        requires
            find_task(old(self)@.tasks, id@) != -1,
        ensures
            final(self)@ == st_toggle(old(self)@, id@),
    {
        proof {
            lemma_find_task(old(self)@.tasks, id@);
        }
        match self.find_index(id.as_str()) {
            Some(i) => {
                let flag = self.tasks[i].completed;
                self.tasks[i].completed = !flag;
                proof {
                    assert(self@.tasks =~= st_toggle(old(self)@, id@).tasks);
                    assert(self@ =~= st_toggle(old(self)@, id@));
                }
            },
            None => {
                proof {
                    assert(false);
                }
            },
        }
    }

    /// Removes the task with the given id, preserving the order of the
    /// remaining tasks. The id must be present, as for toggling.
    pub fn remove_task(&mut self, id: String)
        requires
            find_task(old(self)@.tasks, id@) != -1,
        ensures
            final(self)@ == st_remove(old(self)@, id@),
    {
        proof {
            lemma_find_task(old(self)@.tasks, id@);
        }
        match self.find_index(id.as_str()) {
            Some(i) => {
                self.tasks.remove(i);
                proof {
                    assert(self@.tasks =~= st_remove(old(self)@, id@).tasks);
                    assert(self@ =~= st_remove(old(self)@, id@));
                }
            },
            None => {
                proof {
                    assert(false);
                }
            },
        }
    }

    /// Replaces description and priority of the task with the given id.
    /// The id must be present, as for toggling. Fields are only written
    /// when they differ, but the resulting state is the same either way.
    pub fn edit_task(&mut self, id: &str, new_fields: (&str, &Priority))
        requires
            find_task(old(self)@.tasks, id@) != -1,
        ensures
            final(self)@ == st_edit(old(self)@, id@, new_fields.0@, *new_fields.1),
    {
        proof {
            lemma_find_task(old(self)@.tasks, id@);
        }
        match self.find_index(id) {
            Some(i) => {
                if !str_eq(self.tasks[i].description.as_str(), new_fields.0) {
                    self.tasks[i].description = new_fields.0.to_owned();
                }
                if !(self.tasks[i].priority == *new_fields.1) {
                    self.tasks[i].priority = *new_fields.1;
                }
                proof {
                    assert(self@.tasks =~= st_edit(
                        old(self)@,
                        id@,
                        new_fields.0@,
                        *new_fields.1,
                    ).tasks);
                    assert(self@ =~= st_edit(old(self)@, id@, new_fields.0@, *new_fields.1));
                }
            },
            None => {
                proof {
                    assert(false);
                }
            },
        }
    }
}

/// Every id of these tasks is a hexadecimal numeral whose value leaves
/// room to advance the counter past it.
pub open spec fn ids_parse_ok(ts: Seq<TaskM>) -> bool {
    forall|i: int| 0 <= i < ts.len() ==> is_hex_numeral((#[trigger] ts[i]).id) && hex_num(
        ts[i].id,
    ) < u32::MAX
}

/// The largest id value among these tasks, 0 when there are none.
pub open spec fn max_id_val(ts: Seq<TaskM>) -> nat
    decreases ts.len(),
{
    if ts.len() == 0 {
        0
    } else if hex_num(ts.last().id) > max_id_val(ts.drop_last()) {
        hex_num(ts.last().id)
    } else {
        max_id_val(ts.drop_last())
    }
}

/// What loading a document yields: the parsed tasks and the recomputed
/// counter — one past the largest id, 1 when the list is empty — or
/// nothing, when the document is malformed or an id is unusable.
pub open spec fn load_spec(s: Seq<char>) -> Option<(Seq<TaskM>, nat)> {
    match p_document(s) {
        None => None,
        Some(ts) => if ids_parse_ok(ts) {
            Some((ts, max_id_val(ts) + 1))
        } else {
            None
        },
    }
}

impl TodoList {
    /// The serialized JSON document of the task list. Writing it to
    /// `file_name` is the caller's concern: every mutation expects its
    /// result to be persisted.
    pub fn save(&self) -> (r: String)
        ensures
            r@ == json_tasks(self@.tasks),
    {
        let chars = tasks_to_json(&self.tasks);
        chars_to_string(&chars)
    }

    /// Replaces the whole task sequence with the document's and
    /// recomputes `next_id` as one past the largest id present. A
    /// malformed document, or an id that is not a usable hexadecimal
    /// numeral, is reported and nothing changes.
    #[verifier::rlimit(60)]
    pub fn load_from_str(&mut self, data: &str) -> (r: Result<(), String>)
        ensures
            match load_spec(data@) {
                Some(ts_nid) => r is Ok && final(self)@.tasks == ts_nid.0
                    && final(self)@.next_id == ts_nid.1
                    && final(self)@.file_name == old(self)@.file_name
                    && ids_bounded(final(self)@),
                None => r is Err && *final(self) == *old(self),
            },
    {
        let chars = str_to_chars(data);
        let parsed = match json_to_tasks(&chars) {
            None => {
                return Err(String::from_str("Failed to parse the task list file"));
            },
            Some(ts) => ts,
        };
        let ghost model = tasks_model(parsed@);
        let n = parsed.len();
        let mut max: u32 = 0;
        let mut i: usize = 0;
        while i < n
            invariant
                i <= n,
                n == parsed@.len(),
                model == tasks_model(parsed@),
                p_document(data@) == Some(model),
                forall|j: int| 0 <= j < i ==> is_hex_numeral((#[trigger] model[j]).id)
                    && hex_num(model[j].id) < u32::MAX,
                max < u32::MAX,
                max as nat == max_id_val(model.take(i as int)),
            decreases n - i,
        {
            let idv = str_to_chars(parsed[i].id.as_str());
            let val = match parse_hex_u32(&idv) {
                None => {
                    proof {
                        assert(!(is_hex_numeral(model[i as int].id) && hex_num(
                            model[i as int].id,
                        ) <= u32::MAX));
                        assert(!ids_parse_ok(model));
                    }
                    return Err(String::from_str("Failed to parse a task id"));
                },
                Some(val) => val,
            };
            if val == u32::MAX {
                proof {
                    assert(!ids_parse_ok(model));
                }
                return Err(String::from_str("Failed to parse a task id"));
            }
            if val > max {
                max = val;
            }
            proof {
                assert(model.take(i + 1).drop_last() =~= model.take(i as int));
                assert(model.take(i + 1).last() == model[i as int]);
            }
            i = i + 1;
        }
        proof {
            assert(model.take(n as int) =~= model);
            assert(ids_parse_ok(model));
        }
        self.tasks = parsed;
        self.next_id = max + 1;
        proof {
            assert forall|j: int| 0 <= j < model.len() implies is_hex_numeral(
                (#[trigger] model[j]).id,
            ) && hex_num(model[j].id) < self@.next_id by {
                lemma_max_id_bound(model, j);
            }
        }
        Ok(())
    }

    /// Loads from the file's contents, `None` standing for an unreadable
    /// file. When the document cannot be used the store keeps its
    /// current state and reports that it should be written out afresh:
    /// the deliberate self-healing overwrite, performed by the caller.
    pub fn load(&mut self, data: Option<&str>) -> (needs_save: bool)
        ensures
            match data {
                Some(d) => match load_spec(d@) {
                    Some(ts_nid) => !needs_save && final(self)@.tasks == ts_nid.0
                        && final(self)@.next_id == ts_nid.1
                        && final(self)@.file_name == old(self)@.file_name
                        && ids_bounded(final(self)@),
                    None => needs_save && *final(self) == *old(self),
                },
                None => needs_save && *final(self) == *old(self),
            },
    {
        match data {
            Some(d) => self.load_from_str(d).is_err(),
            None => true,
        }
    }
}

/// No id value exceeds the maximum over the list.
proof fn lemma_max_id_bound(ts: Seq<TaskM>, i: int)
    requires
        0 <= i < ts.len(),
    ensures
        hex_num(ts[i].id) <= max_id_val(ts),
    decreases ts.len(),
{
    if i == ts.len() - 1 {
    } else {
        lemma_max_id_bound(ts.drop_last(), i);
        assert(ts.drop_last()[i] == ts[i]);
    }
}

/// Saving and then loading the saved text reproduces an identical task
/// sequence; only the counter is recomputed, as one past the largest id.
pub proof fn lemma_save_load_round_trip(s: StoreM)
    requires
        ids_bounded(s),
        s.next_id <= u32::MAX,
    ensures
        load_spec(json_tasks(s.tasks)) is Some,
        load_spec(json_tasks(s.tasks)).unwrap().0 == s.tasks,
{
    lemma_json_round_trip(s.tasks);
    assert(ids_parse_ok(s.tasks));
}

} // verus!
