//! The store: all users and task lists of one session.
use vstd::prelude::*;

use crate::model::{
    first_index, lemma_first_index, list_owners, lists_view, no_duplicates, task_ids, tasks_view,
    user_names, users_view, Task, TaskList, TaskListModel, TaskModel, User, UserModel,
};
use crate::password::{check_password, hash_password, verify_outcome};

verus! {

/// The value of an [`AppData`]: its task lists in order, and its user records.
pub struct StoreModel {
    pub task_lists: Seq<TaskListModel>,
    pub users: Seq<UserModel>,
}

impl StoreModel {
    /// Position of the task list of `u` (the first one, should there be more),
    /// or -1.
    pub open spec fn list_index(self, u: Seq<char>) -> int {
        first_index(list_owners(self.task_lists), u, 0)
    }

    /// Position of the record of `u`, or -1.
    pub open spec fn user_index(self, u: Seq<char>) -> int {
        first_index(user_names(self.users), u, 0)
    }

    pub open spec fn has_user(self, u: Seq<char>) -> bool {
        self.user_index(u) >= 0
    }

    /// The tasks of `u`, empty when `u` has no list.
    pub open spec fn tasks_of(self, u: Seq<char>) -> Seq<TaskModel> {
        let i = self.list_index(u);
        if i < 0 {
            Seq::empty()
        } else {
            self.task_lists[i].tasks
        }
    }

    /// The store with the task list at `i` holding `tasks` in place of its own.
    pub open spec fn with_tasks(self, i: int, tasks: Seq<TaskModel>) -> StoreModel {
        StoreModel {
            task_lists: self.task_lists.update(
                i,
                TaskListModel { username: self.task_lists[i].username, tasks },
            ),
            users: self.users,
        }
    }

    /// The next id of `u`'s list fits in a `u32`.
    pub open spec fn can_add_task(self, u: Seq<char>) -> bool {
        self.tasks_of(u).len() < u32::MAX
    }

    /// Adding a pending task with description `d` for `u`: its id is one more
    /// than the length of `u`'s list, and a list is made for `u` if it has none.
    pub open spec fn add_task(self, u: Seq<char>, d: Seq<char>) -> StoreModel {
        let i = self.list_index(u);
        if i < 0 {
            StoreModel {
                task_lists: self.task_lists.push(
                    TaskListModel {
                        username: u,
                        tasks: seq![TaskModel { id: 1, description: d, completed: false }],
                    },
                ),
                users: self.users,
            }
        } else {
            let ts = self.task_lists[i].tasks;
            self.with_tasks(
                i,
                ts.push(TaskModel { id: (ts.len() + 1) as u32, description: d, completed: false }),
            )
        }
    }

    /// Removing every task of `u` whose id is `id`, keeping the order of the rest.
    pub open spec fn remove_task(self, u: Seq<char>, id: u32) -> StoreModel {
        let i = self.list_index(u);
        if i < 0 {
            self
        } else {
            self.with_tasks(i, without_id(self.task_lists[i].tasks, id))
        }
    }

    /// Position of the task `id` in `u`'s list, or -1.
    pub open spec fn task_index(self, u: Seq<char>, id: u32) -> int {
        let i = self.list_index(u);
        if i < 0 {
            -1
        } else {
            first_index(task_ids(self.task_lists[i].tasks), id, 0)
        }
    }

    /// Giving the task `id` of `u` the description `d`.
    pub open spec fn edit_task(self, u: Seq<char>, id: u32, d: Seq<char>) -> StoreModel {
        let j = self.task_index(u, id);
        if j < 0 {
            self
        } else {
            let i = self.list_index(u);
            let ts = self.task_lists[i].tasks;
            self.with_tasks(i, ts.update(j, TaskModel { description: d, ..ts[j] }))
        }
    }

    /// Marking the task `id` of `u` completed.
    pub open spec fn mark_completed(self, u: Seq<char>, id: u32) -> StoreModel {
        let j = self.task_index(u, id);
        if j < 0 {
            self
        } else {
            let i = self.list_index(u);
            let ts = self.task_lists[i].tasks;
            self.with_tasks(i, ts.update(j, TaskModel { completed: true, ..ts[j] }))
        }
    }
}

/// The tasks of `ts` whose id is not `id`, in order.
pub open spec fn without_id(ts: Seq<TaskModel>, id: u32) -> Seq<TaskModel> {
    ts.filter(|t: TaskModel| t.id != id)
}

/// Why a registration was refused.
#[derive(Clone, Copy, Debug, PartialEq, Eq, Structural)]
pub enum RegisterError {
    /// The username is taken.
    AlreadyExists,
    /// The password could not be hashed: no random salt could be had.
    HashFailed,
}

/// `us` with `x` in place of the record of the same username, or with `x`
/// added at the end when there is none.
pub open spec fn insert_user(us: Seq<UserModel>, x: UserModel) -> Seq<UserModel> {
    let k = first_index(user_names(us), x.username, 0);
    if k < 0 {
        us.push(x)
    } else {
        us.update(k, x)
    }
}

/// The user records that inserting each of `us` in turn into an empty
/// collection leaves.
pub open spec fn collect_users(us: Seq<UserModel>) -> Seq<UserModel>
    decreases us.len(),
{
    if us.len() == 0 {
        us
    } else {
        insert_user(collect_users(us.drop_last()), us.last())
    }
}

impl StoreModel {
    /// No two user records share a username.
    pub open spec fn wf(self) -> bool {
        no_duplicates(user_names(self.users))
    }

    /// Exactly one user record has the username `u`.
    pub open spec fn one_record(self, u: Seq<char>) -> bool {
        exists|k: int|
            0 <= k < self.users.len() && #[trigger] self.users[k].username == u && forall|j: int|
                0 <= j < self.users.len() && j != k ==> self.users[j].username != u
    }

    /// The store with a record for `u` whose password hash is `h`.
    pub open spec fn with_user(self, u: Seq<char>, h: Seq<char>) -> StoreModel {
        StoreModel {
            task_lists: self.task_lists,
            users: self.users.push(UserModel { username: u, password: h }),
        }
    }

    /// Registering `u` with password `p` may answer `r` and leave `post`: a taken
    /// name is refused and changes nothing; otherwise either a record of `u`
    /// with a hash that `p` verifies against is added, or hashing failed and
    /// nothing changed.
    pub open spec fn registered(
        self,
        u: Seq<char>,
        p: Seq<char>,
        r: Result<(), RegisterError>,
        post: StoreModel,
    ) -> bool {
        if self.has_user(u) {
            r == Err::<(), RegisterError>(RegisterError::AlreadyExists) && post == self
        } else if r is Ok {
            post == self.with_user(u, post.users.last().password) && verify_outcome(
                p,
                post.users.last().password,
            ) == Some(true)
        } else {
            r == Err::<(), RegisterError>(RegisterError::HashFailed) && post == self
        }
    }

    /// `u` has a record and `p` verifies against its hash.
    pub open spec fn authenticates(self, u: Seq<char>, p: Seq<char>) -> bool {
        let k = self.user_index(u);
        k >= 0 && verify_outcome(p, self.users[k].password) == Some(true)
    }
}

/// Adding `x` to a collection of distinct usernames keeps them distinct.
pub proof fn lemma_insert_user_distinct(us: Seq<UserModel>, x: UserModel)
    requires
        no_duplicates(user_names(us)),
    ensures
        no_duplicates(user_names(insert_user(us, x))),
{
    let names = user_names(us);
    lemma_first_index(names, x.username, 0);
    let k = first_index(names, x.username, 0);
    if k < 0 {
        assert(user_names(us.push(x)) =~= names.push(x.username));
    } else {
        assert(user_names(us.update(k, x)) =~= names);
    }
}

/// Position of the record of `u` in `users`.
fn find_user(users: &Vec<User>, u: &String) -> (r: Option<usize>)
    ensures
        match r {
            Some(i) => i < users.len() && i as int == first_index(
                user_names(users_view(users@)),
                u@,
                0,
            ),
            None => first_index(user_names(users_view(users@)), u@, 0) == -1,
        },
{
    let ghost names = user_names(users_view(users@));
    let mut k: usize = 0;
    while k < users.len()
        invariant
            k <= users.len(),
            names == user_names(users_view(users@)),
            first_index(names, u@, 0) == first_index(names, u@, k as int),
        decreases users.len() - k,
    {
        assert(names[k as int] == users@[k as int].username@);
        if users[k].username == *u {
            return Some(k);
        }
        k += 1;
    }
    None
}

/// Puts `x` in place of the record of the same username in `users`, or adds it.
fn put_user(users: &mut Vec<User>, x: User)
    ensures
        users_view(final(users)@) == insert_user(users_view(old(users)@), x@),
{
    match find_user(users, &x.username) {
        Some(k) => {
            users.remove(k);
            users.insert(k, x);
        },
        None => {
            users.push(x);
        },
    }
    assert(users_view(users@) =~= insert_user(users_view(old(users)@), x@));
}

/// All users and task lists of a session.
#[derive(Debug)]
pub struct AppData {
    pub task_lists: Vec<TaskList>,
    pub users: Vec<User>,
}

impl View for AppData {
    type V = StoreModel;

    open spec fn view(&self) -> StoreModel {
        StoreModel { task_lists: lists_view(self.task_lists@), users: users_view(self.users@) }
    }
}

/// Position of the first list of `lists` owned by `u`.
pub(crate) fn find_list(lists: &Vec<TaskList>, u: &String) -> (r: Option<usize>)
    ensures
        match r {
            Some(i) => i < lists.len() && i as int == first_index(
                list_owners(lists_view(lists@)),
                u@,
                0,
            ),
            None => first_index(list_owners(lists_view(lists@)), u@, 0) == -1,
        },
{
    let ghost owners = list_owners(lists_view(lists@));
    let mut k: usize = 0;
    while k < lists.len()
        invariant
            k <= lists.len(),
            owners == list_owners(lists_view(lists@)),
            first_index(owners, u@, 0) == first_index(owners, u@, k as int),
        decreases lists.len() - k,
    {
        assert(owners[k as int] == lists@[k as int].username@);
        if lists[k].username == *u {
            return Some(k);
        }
        k += 1;
    }
    None
}

/// Position of the first task of `tasks` whose id is `id`.
fn find_task(tasks: &Vec<Task>, id: u32) -> (r: Option<usize>)
    ensures
        match r {
            Some(j) => j < tasks.len() && j as int == first_index(
                task_ids(tasks_view(tasks@)),
                id,
                0,
            ),
            None => first_index(task_ids(tasks_view(tasks@)), id, 0) == -1,
        },
{
    let ghost ids = task_ids(tasks_view(tasks@));
    let mut k: usize = 0;
    while k < tasks.len()
        invariant
            k <= tasks.len(),
            ids == task_ids(tasks_view(tasks@)),
            first_index(ids, id, 0) == first_index(ids, id, k as int),
        decreases tasks.len() - k,
    {
        assert(ids[k as int] == tasks@[k as int].id);
        if tasks[k].id == id {
            return Some(k);
        }
        k += 1;
    }
    None
}

impl AppData {
    /// An empty store.
    pub fn new() -> (r: AppData)
        ensures
            r@.task_lists == Seq::<TaskListModel>::empty(),
            r@.users == Seq::<UserModel>::empty(),
            r@.wf(),
    {
        AppData { task_lists: Vec::new(), users: Vec::new() }
    }

    /// Appends a pending task with `description` to the list of `username`,
    /// with id one more than that list's length; makes the list if there is none.
    pub fn add_task(&mut self, username: &str, description: String)
        requires
            old(self)@.can_add_task(username@),
        ensures
            final(self)@ == old(self)@.add_task(username@, description@),
    {
        let u = username.to_owned();
        match find_list(&self.task_lists, &u) {
            Some(i) => {
                let ghost want = old(self)@.add_task(username@, description@);
                let mut list = self.task_lists.remove(i);
                let ghost ts = list@.tasks;
                let id: u32 = list.tasks.len() as u32 + 1;
                list.tasks.push(Task { id, description, completed: false });
                assert(list@.tasks =~= ts.push(
                    TaskModel { id, description: description@, completed: false },
                ));
                self.task_lists.insert(i, list);
                assert(self@.task_lists =~= want.task_lists);
            },
            None => {
                let mut tasks: Vec<Task> = Vec::new();
                tasks.push(Task { id: 1, description, completed: false });
                assert(tasks_view(tasks@) =~= seq![
                    TaskModel { id: 1, description: description@, completed: false },
                ]);
                self.task_lists.push(TaskList { username: u, tasks });
                assert(self@.task_lists =~= old(self)@.add_task(username@, description@).task_lists);
            },
        }
        assert(self@.users =~= old(self)@.users);
    }

    /// Removes from the list of `username` every task whose id is `task_id`,
    /// keeping the order of the others; does nothing when there is no such
    /// list or task.
    pub fn remove_task(&mut self, username: &str, task_id: u32)
        ensures
            final(self)@ == old(self)@.remove_task(username@, task_id),
    {
        let u = username.to_owned();
        if let Some(i) = find_list(&self.task_lists, &u) {
            let ghost want = old(self)@.remove_task(username@, task_id);
            let mut list = self.task_lists.remove(i);
            let ghost ts = list@.tasks;
            let mut kept: Vec<Task> = Vec::new();
            let mut k: usize = 0;
            while k < list.tasks.len()
                invariant
                    k <= list.tasks.len(),
                    ts == tasks_view(list.tasks@),
                    tasks_view(kept@) == without_id(ts.take(k as int), task_id),
                decreases list.tasks.len() - k,
            {
                assert(ts.take(k + 1).drop_last() =~= ts.take(k as int));
                proof {
                    reveal(Seq::filter);
                }
                if list.tasks[k].id != task_id {
                    let t = list.tasks[k].duplicate();
                    kept.push(t);
                    assert(tasks_view(kept@) =~= without_id(ts.take(k + 1), task_id));
                } else {
                    assert(tasks_view(kept@) =~= without_id(ts.take(k + 1), task_id));
                }
                k += 1;
            }
            assert(ts.take(ts.len() as int) =~= ts);
            list.tasks = kept;
            self.task_lists.insert(i, list);
            assert(self@.task_lists =~= want.task_lists);
        }
        assert(self@.users =~= old(self)@.users);
    }

    /// Gives the first task of `username` whose id is `task_id` the description
    /// `new_description`; does nothing when there is no such list or task.
    pub fn edit_task(&mut self, username: &str, task_id: u32, new_description: String)
        ensures
            final(self)@ == old(self)@.edit_task(username@, task_id, new_description@),
    {
        let u = username.to_owned();
        if let Some(i) = find_list(&self.task_lists, &u) {
            if let Some(j) = find_task(&self.task_lists[i].tasks, task_id) {
                let ghost want = old(self)@.edit_task(username@, task_id, new_description@);
                let mut list = self.task_lists.remove(i);
                let ghost ts = list@.tasks;
                let mut t = list.tasks.remove(j);
                t.description = new_description;
                list.tasks.insert(j, t);
                assert(list@.tasks =~= ts.update(j as int, TaskModel { description: new_description@, ..ts[j as int] }));
                self.task_lists.insert(i, list);
                assert(self@.task_lists =~= want.task_lists);
            }
        }
        assert(self@.users =~= old(self)@.users);
    }

    /// Marks the first task of `username` whose id is `task_id` completed; does
    /// nothing when there is no such list or task.
    pub fn mark_completed(&mut self, username: &str, task_id: u32)
        ensures
            final(self)@ == old(self)@.mark_completed(username@, task_id),
    {
        let u = username.to_owned();
        if let Some(i) = find_list(&self.task_lists, &u) {
            if let Some(j) = find_task(&self.task_lists[i].tasks, task_id) {
                let ghost want = old(self)@.mark_completed(username@, task_id);
                let mut list = self.task_lists.remove(i);
                let ghost ts = list@.tasks;
                let mut t = list.tasks.remove(j);
                t.completed = true;
                list.tasks.insert(j, t);
                assert(list@.tasks =~= ts.update(j as int, TaskModel { completed: true, ..ts[j as int] }));
                self.task_lists.insert(i, list);
                assert(self@.task_lists =~= want.task_lists);
            }
        }
        assert(self@.users =~= old(self)@.users);
    }

    /// A store holding `task_lists` as they are, and the records of `users`
    /// inserted in turn, a later record of a username replacing an earlier one.
    pub fn from_saved(task_lists: Vec<TaskList>, users: Vec<User>) -> (r: AppData)
        ensures
            r@.task_lists == lists_view(task_lists@),
            r@.users == collect_users(users_view(users@)),
            r@.wf(),
    {
        let ghost us = users_view(users@);
        let mut kept: Vec<User> = Vec::new();
        let mut k: usize = 0;
        while k < users.len()
            invariant
                k <= users.len(),
                us == users_view(users@),
                users_view(kept@) == collect_users(us.take(k as int)),
                no_duplicates(user_names(users_view(kept@))),
            decreases users.len() - k,
        {
            assert(us.take(k + 1).drop_last() =~= us.take(k as int));
            proof {
                lemma_insert_user_distinct(users_view(kept@), us[k as int]);
            }
            put_user(&mut kept, users[k].duplicate());
            k += 1;
        }
        assert(us.take(us.len() as int) =~= us);
        AppData { task_lists, users: kept }
    }

    /// Adds a record of `username` with the given password hash, unless the
    /// name is taken.
    pub fn add_user(&mut self, username: String, password_hash: String) -> (r: Result<(), RegisterError>)
        ensures
            old(self)@.has_user(username@) ==> r == Err::<(), RegisterError>(
                RegisterError::AlreadyExists,
            ) && final(self)@ == old(self)@,
            !old(self)@.has_user(username@) ==> r is Ok && final(self)@ == old(self)@.with_user(
                username@,
                password_hash@,
            ),
    {
        if find_user(&self.users, &username).is_some() {
            return Err(RegisterError::AlreadyExists);
        }
        let ghost h = password_hash@;
        self.users.push(User { username, password: password_hash });
        assert(self@.users =~= old(self)@.with_user(username@, h).users);
        Ok(())
    }

    /// Registers `username` with a salted hash of `password`; a taken name is
    /// refused.
    pub fn register_user(&mut self, username: String, password: String) -> (r: Result<(), RegisterError>)
        ensures
            old(self)@.registered(username@, password@, r, final(self)@),
    {
        if find_user(&self.users, &username).is_some() {
            return Err(RegisterError::AlreadyExists);
        }
        match hash_password(password.as_str()) {
            None => Err(RegisterError::HashFailed),
            Some(h) => self.add_user(username, h),
        }
    }

    /// Whether `username` has a record and `password` verifies against its
    /// hash; a hash that cannot be read counts as a mismatch.
    pub fn authenticate(&self, username: &str, password: &str) -> (r: bool)
        ensures
            r == self@.authenticates(username@, password@),
    {
        let u = username.to_owned();
        match find_user(&self.users, &u) {
            None => false,
            Some(k) => {
                let outcome = check_password(password, self.users[k].password.as_str());
                match outcome {
                    Some(b) => b,
                    None => false,
                }
            },
        }
    }
}

} // verus!
