//! The task table: tasks created, looked up and moved through their states.

use vstd::prelude::*;

use crate::a2a::types::{
    copy_strings, message_model, task_model, Artifact, Message, Part, Task, TaskModel, TaskState,
    TaskStatus, artifacts_model, messages_model,
};
use crate::clamp::fit_prefix;
use crate::handler::context_id_for;
use crate::strmap::{lookup, str_lt, StrMap};
use crate::text::{owned, sviews};

verus! {

/// Whether `c` is a lower-case hexadecimal digit.
pub open spec fn is_lower_hex(c: char) -> bool {
    ('0' <= c && c <= '9') || ('a' <= c && c <= 'f')
}

/// Whether `s` is a UUID written in the hyphenated lower-case form:
/// 8-4-4-4-12 hexadecimal digits.
pub open spec fn hyphenated_uuid(s: Seq<char>) -> bool {
    &&& s.len() == 36
    &&& forall|i: int|
        0 <= i < 36 ==> if i == 8 || i == 13 || i == 18 || i == 23 {
            #[trigger] s[i] == '-'
        } else {
            is_lower_hex(s[i])
        }
}

/// Calls `uuid::Uuid::new_v4()` and writes it out (`to_string`).  The id
/// is random; every outcome is in the hyphenated lower-case form.
#[verifier::external_body]
pub(crate) fn new_uuid() -> (r: String)
    ensures
        hyphenated_uuid(r@),
{
    uuid::Uuid::new_v4().to_string()
}

/// A UUID's first eight characters make eight bytes.
pub proof fn lemma_uuid_prefix(s: Seq<char>)
    requires
        hyphenated_uuid(s),
    ensures
        crate::text::utf8_len(fit_prefix(s, 8)) == 8,
        fit_prefix(s, 8) == s.take(8),
{
    assert forall|i: int| 0 <= i < s.len() implies ((#[trigger] s[i]) as u32) <= 0x7f by {
        if i == 8 || i == 13 || i == 18 || i == 23 {
        } else {
            assert(is_lower_hex(s[i]));
        }
    }
    crate::clamp::lemma_fit_prefix_ascii(s, 8);
}

/// The model of a task just created: submitted, with the first message as
/// its history.
pub open spec fn submitted(
    id: Seq<char>,
    context_id: Seq<char>,
    first: (Seq<char>, Seq<Part>, Option<Seq<char>>),
    skills: Seq<Seq<char>>,
) -> TaskModel {
    TaskModel {
        id,
        context_id: Some(context_id),
        state: TaskState::submitted,
        status_message: None,
        history: Some(seq![first]),
        artifacts: None,
        skills,
    }
}

/// The model of a task with its state set.
pub open spec fn with_state(t: TaskModel, state: TaskState) -> TaskModel {
    TaskModel { state, ..t }
}

/// The model of a task answered: the reply added to its history (when it
/// keeps one), the artifacts set, and the state completed.
pub open spec fn answered(
    t: TaskModel,
    reply: (Seq<char>, Seq<Part>, Option<Seq<char>>),
    artifacts: Seq<(Seq<Part>, Option<Seq<char>>, Option<bool>)>,
) -> TaskModel {
    TaskModel {
        history: match t.history {
            Some(h) => Some(h.push(reply)),
            None => None,
        },
        artifacts: Some(artifacts),
        state: TaskState::completed,
        ..t
    }
}

/// The status message of a failure: an agent message with the error as
/// its only text part.
pub open spec fn failure_message(m: (Seq<char>, Seq<Part>, Option<Seq<char>>), error: Seq<char>) -> bool {
    m.0 == "agent"@ && m.1.len() == 1 && Part::is_text_of(m.1[0], error) && m.2 is None
}

/// The task store: tasks by id.
#[derive(Debug)]
pub struct TaskStore {
    tasks: StrMap<Task>,
}

impl TaskStore {
    #[verifier::type_invariant]
    spec fn keyed_by_id(self) -> bool {
        forall|i: int| 0 <= i < self.tasks@.len() ==> #[trigger] self.tasks@[i].0 == self.tasks@[i].1.id@
    }

    /// The task stored under `id`.
    pub closed spec fn task(self, id: Seq<char>) -> Option<TaskModel> {
        match lookup(self.tasks@, id) {
            Some(t) => Some(task_model(t)),
            None => None,
        }
    }

    /// An empty store.
    pub fn new() -> (s: Self)
        ensures
            forall|q: Seq<char>| #[trigger] s.task(q) is None,
    {
        TaskStore { tasks: StrMap::new() }
    }

    /// Stores `t` under its id.
    fn put(&mut self, t: Task)
        ensures
            forall|q: Seq<char>| #[trigger]
                final(self).task(q) == if q == t.id@ {
                    Some(task_model(t))
                } else {
                    old(self).task(q)
                },
    {
        proof {
            use_type_invariant(&*self);
        }
        let key = owned(t.id.as_str());
        let ghost tv = t;
        let mut tasks = StrMap::new();
        std::mem::swap(&mut tasks, &mut self.tasks);
        let ghost s0 = tasks@;
        let _ = tasks.len();
        let _ = tasks.insert(key, t);
        let _ = tasks.len();
        proof {
            let s1 = tasks@;
            assert forall|i: int| 0 <= i < s1.len() implies #[trigger] s1[i].0 == s1[i].1.id@ by {
                crate::strmap::lemma_lookup_at(s1, i);
                if s1[i].0 != tv.id@ {
                    assert(lookup(s0, s1[i].0) == Some(s1[i].1));
                    let j = crate::strmap::key_index(s0, s1[i].0);
                    assert(s0[j].0 == s0[j].1.id@);
                }
            }
        }
        self.tasks = tasks;
    }

    /// Takes the task stored under `id` out of the store.
    fn take(&mut self, id: &str) -> (r: Option<Task>)
        ensures
            match r {
                Some(t) => old(self).task(id@) == Some(task_model(t)) && t.id@ == id@,
                None => old(self).task(id@) is None,
            },
            forall|q: Seq<char>| #[trigger]
                final(self).task(q) == if q == id@ {
                    None
                } else {
                    old(self).task(q)
                },
    {
        proof {
            use_type_invariant(&*self);
        }
        let mut tasks = StrMap::new();
        std::mem::swap(&mut tasks, &mut self.tasks);
        let ghost s0 = tasks@;
        let _ = tasks.len();
        let r = tasks.remove(id);
        proof {
            let s1 = tasks@;
            assert forall|i: int| 0 <= i < s1.len() implies #[trigger] s1[i].0 == s1[i].1.id@ by {
                assert(s0.contains(s1[i]));
            }
            if r is Some {
                let j = crate::strmap::key_index(s0, id@);
                assert(s0[j].0 == s0[j].1.id@);
            }
        }
        self.tasks = tasks;
        r
    }

    /// Creates a submitted task carrying `skills`, with the first message
    /// as its history, stores it (replacing a task of that id) and gives a
    /// copy.
    pub fn create_task_with_skills(
        &mut self,
        task_id: String,
        context_id: String,
        user_message: Message,
        skills: Vec<String>,
    ) -> (t: Task)
        ensures
            task_model(t) == submitted(
                task_id@,
                context_id@,
                message_model(user_message),
                sviews(skills@),
            ),
            forall|q: Seq<char>| #[trigger]
                final(self).task(q) == if q == task_id@ {
                    Some(task_model(t))
                } else {
                    old(self).task(q)
                },
    {
        let task = Task {
            id: task_id,
            context_id: Some(context_id),
            status: TaskStatus { state: TaskState::submitted, message: None },
            history: Some(vec![user_message]),
            artifacts: None,
            skills,
        };
        proof {
            assert(messages_model(task.history.unwrap()@) =~= seq![message_model(user_message)]);
        }
        let copy = task.copy();
        self.put(task);
        copy
    }

    /// Creates a submitted task with no skills (see
    /// `create_task_with_skills`).
    pub fn create_task(&mut self, task_id: String, context_id: String, user_message: Message) -> (t: Task)
        ensures
            task_model(t) == submitted(
                task_id@,
                context_id@,
                message_model(user_message),
                Seq::empty(),
            ),
            forall|q: Seq<char>| #[trigger]
                final(self).task(q) == if q == task_id@ {
                    Some(task_model(t))
                } else {
                    old(self).task(q)
                },
    {
        let t = self.create_task_with_skills(task_id, context_id, user_message, Vec::new());
        proof {
            assert(sviews(Seq::<String>::empty()) =~= Seq::<Seq<char>>::empty());
        }
        t
    }

    /// Creates a sub-task of `parent_id` under a fresh random id: submitted,
    /// with the message as its history, its context id `ctx-` and the id's
    /// first eight characters, and the parent's skills.  `None`, with
    /// nothing changed, when there is no such parent.
    pub fn create_sub_task(&mut self, parent_id: &str, user_message: Message) -> (r: Option<Task>)
        ensures
            r is None <==> old(self).task(parent_id@) is None,
            r is None ==> forall|q: Seq<char>| #[trigger] final(self).task(q) == old(self).task(q),
            r matches Some(t) ==> {
                &&& hyphenated_uuid(t.id@)
                &&& task_model(t) == submitted(
                    t.id@,
                    "ctx-"@ + t.id@.take(8),
                    message_model(user_message),
                    old(self).task(parent_id@).unwrap().skills,
                )
                &&& forall|q: Seq<char>| #[trigger]
                    final(self).task(q) == if q == t.id@ {
                        Some(task_model(t))
                    } else {
                        old(self).task(q)
                    }
            },
    {
        proof {
            use_type_invariant(&*self);
        }
        let parent_skills = match self.tasks.get(parent_id) {
            Some(p) => copy_strings(&p.skills),
            None => {
                return None;
            },
        };
        let child_id = new_uuid();
        proof {
            lemma_uuid_prefix(child_id@);
        }
        let context_id = context_id_for(child_id.as_str());
        let t = self.create_task_with_skills(child_id, context_id, user_message, parent_skills);
        Some(t)
    }

    /// Sets the state of the task `task_id`, if there is one.
    pub fn update_status(&mut self, task_id: &str, state: TaskState)
        ensures
            forall|q: Seq<char>| #[trigger]
                final(self).task(q) == if q == task_id@ && old(self).task(q) is Some {
                    Some(with_state(old(self).task(q).unwrap(), state))
                } else {
                    old(self).task(q)
                },
    {
        match self.take(task_id) {
            Some(mut t) => {
                t.status.state = state;
                self.put(t);
            },
            None => {},
        }
    }

    /// Adds the agent's reply to the task `task_id`, if there is one: the
    /// reply joins its history (when it keeps one), the artifacts are set
    /// and the task is completed.
    pub fn add_reply(&mut self, task_id: &str, reply: Message, artifacts: Vec<Artifact>)
        ensures
            forall|q: Seq<char>| #[trigger]
                final(self).task(q) == if q == task_id@ && old(self).task(q) is Some {
                    Some(
                        answered(
                            old(self).task(q).unwrap(),
                            message_model(reply),
                            artifacts_model(artifacts@),
                        ),
                    )
                } else {
                    old(self).task(q)
                },
    {
        match self.take(task_id) {
            Some(mut t) => {
                let ghost t0 = t;
                let history = match t.history {
                    Some(mut h) => {
                        let ghost h0 = h@;
                        h.push(reply);
                        proof {
                            assert(messages_model(h@) =~= messages_model(h0).push(message_model(reply)));
                        }
                        Some(h)
                    },
                    None => None,
                };
                t.history = history;
                t.artifacts = Some(artifacts);
                t.status.state = TaskState::completed;
                proof {
                    assert(task_model(t) == answered(
                        task_model(t0),
                        message_model(reply),
                        artifacts_model(artifacts@),
                    ));
                }
                self.put(t);
            },
            None => {},
        }
    }

    /// Marks the task `task_id`, if there is one, failed, with the error as
    /// its status message.
    pub fn fail_task(&mut self, task_id: &str, error: &str)
        ensures
            forall|q: Seq<char>| #[trigger]
                final(self).task(q) == if q == task_id@ && old(self).task(q) is Some {
                    Some(
                        TaskModel {
                            state: TaskState::failed,
                            status_message: final(self).task(q).unwrap().status_message,
                            ..old(self).task(q).unwrap()
                        },
                    )
                } else {
                    old(self).task(q)
                },
            old(self).task(task_id@) is Some ==> failure_message(
                final(self).task(task_id@).unwrap().status_message.unwrap(),
                error@,
            ),
    {
        match self.take(task_id) {
            Some(mut t) => {
                t.status.state = TaskState::failed;
                let p = Part::text(error);
                t.status.message = Some(Message { role: owned("agent"), parts: vec![p], message_id: None });
                self.put(t);
            },
            None => {},
        }
    }

    /// Copies of all the stored tasks, in increasing id order: every task
    /// the store holds appears once.
    pub fn list_tasks(&self) -> (r: Vec<Task>)
        ensures
            forall|i: int|
                0 <= i < r@.len() ==> self.task(#[trigger] r@[i].id@) == Some(task_model(r@[i])),
            forall|i: int, j: int|
                0 <= i < j < r@.len() ==> str_lt(#[trigger] r@[i].id@, #[trigger] r@[j].id@),
            forall|q: Seq<char>| #[trigger]
                self.task(q) is Some ==> exists|i: int| 0 <= i < r@.len() && #[trigger] r@[i].id@ == q,
    {
        proof {
            use_type_invariant(self);
        }
        let n = self.tasks.len();
        let ghost s = self.tasks@;
        let mut r: Vec<Task> = Vec::new();
        let mut i: usize = 0;
        while i < n
            invariant
                i <= n,
                n == s.len(),
                s == self.tasks@,
                r@.len() == i,
                forall|k: int| 0 <= k < i ==> #[trigger] task_model(r@[k]) == task_model(s[k].1),
            decreases n - i,
        {
            let t = self.tasks.value_at(i).copy();
            r.push(t);
            i += 1;
        }
        proof {
            assert forall|k: int| 0 <= k < r@.len() implies #[trigger] r@[k].id@ == s[k].0 by {
                assert(task_model(r@[k]) == task_model(s[k].1));
                assert(s[k].0 == s[k].1.id@);
            }
            assert forall|k: int| 0 <= k < r@.len() implies self.task(#[trigger] r@[k].id@)
                == Some(task_model(r@[k])) by {
                assert(r@[k].id@ == s[k].0);
                crate::strmap::lemma_lookup_at(s, k);
                assert(task_model(r@[k]) == task_model(s[k].1));
            }
            assert forall|a: int, b: int| 0 <= a < b < r@.len() implies str_lt(
                #[trigger] r@[a].id@,
                #[trigger] r@[b].id@,
            ) by {
                assert(r@[a].id@ == s[a].0);
                assert(r@[b].id@ == s[b].0);
            }
            assert forall|q: Seq<char>| #[trigger] self.task(q) is Some implies exists|k: int|
                0 <= k < r@.len() && #[trigger] r@[k].id@ == q by {
                let j = crate::strmap::key_index(s, q);
                assert(0 <= j < s.len() && s[j].0 == q);
                assert(r@[j].id@ == s[j].0);
            }
        }
        r
    }

    /// A copy of the task `task_id`.
    pub fn get_task(&self, task_id: &str) -> (r: Option<Task>)
        ensures
            match r {
                Some(t) => self.task(task_id@) == Some(task_model(t)),
                None => self.task(task_id@) is None,
            },
    {
        match self.tasks.get(task_id) {
            Some(t) => Some(t.copy()),
            None => None,
        }
    }
}

impl Default for TaskStore {
    fn default() -> (s: Self)
        ensures
            forall|q: Seq<char>| #[trigger] s.task(q) is None,
    {
        TaskStore::new()
    }
}

} // verus!
