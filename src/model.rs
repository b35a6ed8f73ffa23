//! Data types of the store and their mathematical models.
use vstd::prelude::*;

verus! {

/// A single to-do item. Its `id` is unique within its owner's list at the time
/// it is assigned.
#[derive(Clone, Debug, PartialEq, Eq)]
pub struct Task {
    pub id: u32,
    pub description: String,
    pub completed: bool,
}

/// The value of a [`Task`].
pub struct TaskModel {
    pub id: u32,
    pub description: Seq<char>,
    pub completed: bool,
}

impl View for Task {
    type V = TaskModel;

    open spec fn view(&self) -> TaskModel {
        TaskModel { id: self.id, description: self.description@, completed: self.completed }
    }
}

impl Task {
    /// A task equal to this one.
    pub fn duplicate(&self) -> (r: Task)
        ensures
            r@ == self@,
    {
        Task { id: self.id, description: self.description.clone(), completed: self.completed }
    }
}

/// An account: a username and the hash of its password. The plain password
/// is never kept.
#[derive(Clone, Debug, PartialEq, Eq)]
pub struct User {
    pub username: String,
    pub password: String,
}

/// The value of a [`User`].
pub struct UserModel {
    pub username: Seq<char>,
    pub password: Seq<char>,
}

impl View for User {
    type V = UserModel;

    open spec fn view(&self) -> UserModel {
        UserModel { username: self.username@, password: self.password@ }
    }
}

impl User {
    /// A user record equal to this one.
    pub fn duplicate(&self) -> (r: User)
        ensures
            r@ == self@,
    {
        User { username: self.username.clone(), password: self.password.clone() }
    }
}

/// The ordered tasks of one user.
#[derive(Clone, Debug, PartialEq, Eq)]
pub struct TaskList {
    pub username: String,
    pub tasks: Vec<Task>,
}

/// The value of a [`TaskList`].
pub struct TaskListModel {
    pub username: Seq<char>,
    pub tasks: Seq<TaskModel>,
}

impl View for TaskList {
    type V = TaskListModel;

    open spec fn view(&self) -> TaskListModel {
        TaskListModel { username: self.username@, tasks: tasks_view(self.tasks@) }
    }
}

pub open spec fn tasks_view(ts: Seq<Task>) -> Seq<TaskModel> {
    ts.map_values(|t: Task| t@)
}

pub open spec fn lists_view(ls: Seq<TaskList>) -> Seq<TaskListModel> {
    ls.map_values(|l: TaskList| l@)
}

pub open spec fn users_view(us: Seq<User>) -> Seq<UserModel> {
    us.map_values(|u: User| u@)
}

/// The ids of a sequence of tasks, in order.
pub open spec fn task_ids(ts: Seq<TaskModel>) -> Seq<u32> {
    ts.map_values(|t: TaskModel| t.id)
}

/// The owners of a sequence of task lists, in order.
pub open spec fn list_owners(ls: Seq<TaskListModel>) -> Seq<Seq<char>> {
    ls.map_values(|l: TaskListModel| l.username)
}

/// The usernames of a sequence of user records, in order.
pub open spec fn user_names(us: Seq<UserModel>) -> Seq<Seq<char>> {
    us.map_values(|u: UserModel| u.username)
}

/// The first position at or after `start` where `s` holds `x`, or -1.
pub open spec fn first_index<A>(s: Seq<A>, x: A, start: int) -> int
    decreases s.len() - start,
{
    if start >= s.len() {
        -1
    } else if s[start] == x {
        start
    } else {
        first_index(s, x, start + 1)
    }
}

/// No value occurs twice in `s`.
pub open spec fn no_duplicates<A>(s: Seq<A>) -> bool {
    forall|i: int, j: int| 0 <= i < j < s.len() ==> s[i] != s[j]
}

/// What `first_index` returns: the first match from `start` on, or -1 when
/// there is none.
pub proof fn lemma_first_index<A>(s: Seq<A>, x: A, start: int)
    requires
        0 <= start <= s.len(),
    ensures
        first_index(s, x, start) == -1 <==> (forall|j: int| start <= j < s.len() ==> s[j] != x),
        first_index(s, x, start) != -1 ==> {
            let r = first_index(s, x, start);
            &&& start <= r < s.len()
            &&& s[r] == x
            &&& forall|j: int| start <= j < r ==> s[j] != x
        },
    decreases s.len() - start,
{
    if start < s.len() && s[start] != x {
        lemma_first_index(s, x, start + 1);
    }
}

} // verus!
