//! Laws that relate several operations of the store.
use vstd::prelude::*;

use crate::model::{
    lemma_first_index, list_owners, no_duplicates, task_ids, user_names, TaskModel, UserModel,
};
use crate::store::{collect_users, insert_user, RegisterError, StoreModel};

verus! {

/// Registration keeps usernames distinct.
pub proof fn lemma_registered_wf(
    s0: StoreModel,
    u: Seq<char>,
    p: Seq<char>,
    r: Result<(), RegisterError>,
    s1: StoreModel,
)
    requires
        s0.wf(),
        s0.registered(u, p, r, s1),
    ensures
        s1.wf(),
{
    if !s0.has_user(u) && r is Ok {
        let names = user_names(s0.users);
        lemma_first_index(names, u, 0);
        assert(user_names(s1.users) =~= names.push(u));
    }
}

/// After a successful registration of `u` the new record is the one record
/// of `u`, at the end.
proof fn lemma_new_record(s0: StoreModel, u: Seq<char>, p: Seq<char>, s1: StoreModel)
    requires
        s0.wf(),
        !s0.has_user(u),
        s0.registered(u, p, Ok(()), s1),
    ensures
        s1.user_index(u) == s0.users.len(),
        s1.one_record(u),
{
    let names = user_names(s0.users);
    let names1 = user_names(s1.users);
    lemma_first_index(names, u, 0);
    assert(names1 =~= names.push(u));
    lemma_first_index(names1, u, 0);
    let k = s0.users.len() as int;
    assert(names1[k] == u);
    assert(s1.users[k].username == u);
    assert forall|j: int| 0 <= j < s1.users.len() && j != k implies s1.users[j].username != u by {
        assert(names[j] == s0.users[j].username);
    }
}

/// Registering the same username twice leaves exactly one record of it: once
/// the first call has succeeded (or the name was already taken), the second
/// is refused as taken and changes nothing.
pub proof fn lemma_register_twice(
    s0: StoreModel,
    u: Seq<char>,
    p1: Seq<char>,
    p2: Seq<char>,
    r1: Result<(), RegisterError>,
    s1: StoreModel,
    r2: Result<(), RegisterError>,
    s2: StoreModel,
)
    requires
        s0.wf(),
        s0.registered(u, p1, r1, s1),
        s1.registered(u, p2, r2, s2),
    ensures
        s2.wf(),
        r1 is Ok || s0.has_user(u) ==> {
            &&& r2 == Err::<(), RegisterError>(RegisterError::AlreadyExists)
            &&& s2 == s1
            &&& s2.one_record(u)
        },
{
    lemma_registered_wf(s0, u, p1, r1, s1);
    lemma_registered_wf(s1, u, p2, r2, s2);
    if s0.has_user(u) {
        let names = user_names(s0.users);
        lemma_first_index(names, u, 0);
        let k = s0.user_index(u);
        assert(s0.users[k].username == names[k]);
        assert forall|j: int| 0 <= j < s0.users.len() && j != k implies s0.users[j].username
            != u by {
            assert(names[j] == s0.users[j].username);
        }
    } else if r1 is Ok {
        lemma_new_record(s0, u, p1, s1);
    }
}

/// A password that has just been registered for `u` authenticates `u`, and a
/// name without a record authenticates with no password.
pub proof fn lemma_authenticate_after_register(
    s0: StoreModel,
    u: Seq<char>,
    p: Seq<char>,
    s1: StoreModel,
    u2: Seq<char>,
    p2: Seq<char>,
)
    requires
        s0.wf(),
        s0.registered(u, p, Ok(()), s1),
        !s1.has_user(u2),
    ensures
        s1.authenticates(u, p),
        !s1.authenticates(u2, p2),
{
    lemma_new_record(s0, u, p, s1);
}

/// Adding a task appends it to `u`'s list, with id one more than the list's
/// former length.
pub proof fn lemma_add_task_appends(m: StoreModel, u: Seq<char>, d: Seq<char>)
    ensures
        m.add_task(u, d).tasks_of(u) == m.tasks_of(u).push(
            TaskModel { id: (m.tasks_of(u).len() + 1) as u32, description: d, completed: false },
        ),
{
    let owners = list_owners(m.task_lists);
    lemma_first_index(owners, u, 0);
    let i = m.list_index(u);
    let m2 = m.add_task(u, d);
    let owners2 = list_owners(m2.task_lists);
    if i < 0 {
        assert(owners2 =~= owners.push(u));
        lemma_first_index(owners2, u, 0);
        assert(owners2[owners.len() as int] == u);
        assert(m2.list_index(u) == owners.len());
        assert(m2.tasks_of(u) =~= m.tasks_of(u).push(
            TaskModel { id: 1, description: d, completed: false },
        ));
    } else {
        assert(owners2 =~= owners);
    }
}

/// No task operation gives a user a second task list.
pub proof fn lemma_task_ops_keep_one_list(m: StoreModel, u: Seq<char>, id: u32, d: Seq<char>)
    requires
        no_duplicates(list_owners(m.task_lists)),
    ensures
        no_duplicates(list_owners(m.add_task(u, d).task_lists)),
        no_duplicates(list_owners(m.remove_task(u, id).task_lists)),
        no_duplicates(list_owners(m.edit_task(u, id, d).task_lists)),
        no_duplicates(list_owners(m.mark_completed(u, id).task_lists)),
{
    let owners = list_owners(m.task_lists);
    lemma_first_index(owners, u, 0);
    let i = m.list_index(u);
    if i < 0 {
        assert(list_owners(m.add_task(u, d).task_lists) =~= owners.push(u));
    } else {
        assert(list_owners(m.add_task(u, d).task_lists) =~= owners);
        assert(list_owners(m.remove_task(u, id).task_lists) =~= owners);
        assert(list_owners(m.edit_task(u, id, d).task_lists) =~= owners);
        assert(list_owners(m.mark_completed(u, id).task_lists) =~= owners);
    }
}

/// `m` after adding, for `u`, a task with each description of `ds` in turn.
pub open spec fn add_many(m: StoreModel, u: Seq<char>, ds: Seq<Seq<char>>) -> StoreModel
    decreases ds.len(),
{
    if ds.len() == 0 {
        m
    } else {
        add_many(m, u, ds.drop_last()).add_task(u, ds.last())
    }
}

/// Adding `n` tasks for a user without a list gives a list of `n` pending
/// tasks with ids 1 to `n` in the order of insertion; every call in the
/// sequence may be made, as each id fits.
pub proof fn lemma_add_many(m: StoreModel, u: Seq<char>, ds: Seq<Seq<char>>)
    requires
        m.list_index(u) < 0,
        ds.len() <= u32::MAX,
    ensures
        add_many(m, u, ds).tasks_of(u).len() == ds.len(),
        forall|k: int|
            0 <= k < ds.len() ==> #[trigger] add_many(m, u, ds).tasks_of(u)[k] == (TaskModel {
                id: (k + 1) as u32,
                description: ds[k],
                completed: false,
            }),
        forall|k: int| 0 <= k < ds.len() ==> add_many(m, u, ds.take(k)).can_add_task(u),
    decreases ds.len(),
{
    if ds.len() > 0 {
        let front = ds.drop_last();
        lemma_add_many(m, u, front);
        lemma_add_task_appends(add_many(m, u, front), u, ds.last());
        assert forall|k: int| 0 <= k < ds.len() implies add_many(m, u, ds.take(k)).can_add_task(
            u,
        ) by {
            if k < front.len() {
                assert(ds.take(k) =~= front.take(k));
            } else {
                assert(ds.take(k) =~= front);
            }
        }
    }
}

/// On a missing user or a missing task id, editing and marking change nothing.
pub proof fn lemma_missing_task_unchanged(m: StoreModel, u: Seq<char>, id: u32, d: Seq<char>)
    requires
        m.list_index(u) < 0 || forall|j: int|
            0 <= j < m.tasks_of(u).len() ==> #[trigger] m.tasks_of(u)[j].id != id,
    ensures
        m.edit_task(u, id, d) == m,
        m.mark_completed(u, id) == m,
{
    let i = m.list_index(u);
    if i >= 0 {
        let ids = task_ids(m.task_lists[i].tasks);
        lemma_first_index(ids, id, 0);
        assert forall|j: int| 0 <= j < ids.len() implies ids[j] != id by {
            assert(ids[j] == m.tasks_of(u)[j].id);
        }
    }
}

/// Inserting the records of distinct usernames one by one into an empty
/// collection gives them back unchanged.
pub proof fn lemma_collect_distinct(us: Seq<UserModel>)
    requires
        no_duplicates(user_names(us)),
    ensures
        collect_users(us) == us,
    decreases us.len(),
{
    if us.len() > 0 {
        let front = us.drop_last();
        assert(user_names(front) =~= user_names(us).drop_last());
        lemma_collect_distinct(front);
        let names = user_names(front);
        lemma_first_index(names, us.last().username, 0);
        assert forall|j: int| 0 <= j < names.len() implies names[j] != us.last().username by {
            assert(user_names(us)[j] == names[j]);
            assert(user_names(us)[us.len() - 1] == us.last().username);
        }
        assert(insert_user(front, us.last()) =~= us);
    }
}

/// Saving a store and loading it back gives the same store: the saved task
/// lists are kept as they are, and rebuilding the users from the saved
/// records gives the same records, so the same passwords authenticate.
pub proof fn lemma_save_load_round_trip(m: StoreModel, u: Seq<char>, p: Seq<char>)
    requires
        m.wf(),
    ensures
        (StoreModel { task_lists: m.task_lists, users: collect_users(m.users) }) == m,
        (StoreModel { task_lists: m.task_lists, users: collect_users(m.users) }).authenticates(
            u,
            p,
        ) == m.authenticates(u, p),
{
    lemma_collect_distinct(m.users);
}

} // verus!
