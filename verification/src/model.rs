//! The directory as a state: the stored rows, and what each operation does
//! to them.
//!
//! The rows themselves live in the storage engine, which this crate does not
//! verify. This module says what the operations of `user` and `namespace`
//! are to do to them: each operation is the chain of the decisions that the
//! executable function takes (`protection_of`, `presence_of`, `usage_of`,
//! `validation_of`, `removal_of`, `deletion_of`), applied to what a lookup
//! or a count finds in the state. The engine's own rules are part of the
//! state's steps: a name and an identifier are keys, a member has to be a
//! user, and the two rows of a new namespace are stored together or not at
//! all. What follows for every state is proved here.

use crate::error::{presence_of, DirectoryErrorView, SubjectView};
use crate::namespace::{
    default_name, protection_of, removal_of, role_named, validation_of, Role,
};
use crate::task::{count_where, TaskRecord};
use crate::user::{deletion_of, usage_of};
use vstd::prelude::*;

verus! {

/// The stored rows.
pub ghost struct Directory {
    /// The identifier of each user, by name. A name stands for one user.
    pub users: Map<Seq<char>, i64>,
    /// The identifier of each namespace, by name.
    pub namespaces: Map<Seq<char>, i64>,
    /// The role of each member, by user and namespace. A user has one role
    /// in a namespace.
    pub roles: Map<(i64, i64), Role>,
    /// The tasks of the item store.
    pub tasks: Seq<TaskRecord>,
}

/// A state after an operation, and what the operation answered.
pub ghost struct Step<T> {
    pub after: Directory,
    pub result: Result<T, DirectoryErrorView>,
}

/// The step of an operation that fails: the state stays as it is.
pub open spec fn refused<T>(d: Directory, e: DirectoryErrorView) -> Step<T> {
    Step { after: d, result: Err(e) }
}

/// The condition "belongs to namespace `id`".
pub open spec fn in_namespace(id: i64) -> spec_fn(TaskRecord) -> bool {
    |t: TaskRecord| t.namespace_id == id
}

/// The condition "owned by or assigned to user `id`".
pub open spec fn of_user(id: i64) -> spec_fn(TaskRecord) -> bool {
    |t: TaskRecord| t.owner_id == id || t.assignee_id == Some(id)
}

impl Directory {
    /// Whether some user has the identifier `id`.
    pub open spec fn has_user(self, id: i64) -> bool {
        exists|name: Seq<char>| #[trigger] self.users.contains_key(name) && self.users[name] == id
    }

    /// Whether some namespace has the identifier `id`.
    pub open spec fn has_namespace(self, id: i64) -> bool {
        exists|name: Seq<char>| #[trigger]
            self.namespaces.contains_key(name) && self.namespaces[name] == id
    }

    /// Whether the memberships are finitely many and each is the membership
    /// of a user in a namespace that the state holds.
    pub open spec fn wf(self) -> bool {
        &&& self.roles.dom().finite()
        &&& forall|k: (i64, i64)| #[trigger]
            self.roles.contains_key(k) ==> self.has_user(k.0) && self.has_namespace(k.1)
    }

    /// The memberships of namespace `id` with the role owner.
    pub open spec fn owners(self, id: i64) -> Set<(i64, i64)> {
        self.roles.dom().filter(|k: (i64, i64)| k.1 == id && self.roles[k] == Role::Owner)
    }

    /// The number of owners of namespace `id`.
    pub open spec fn owner_count(self, id: i64) -> int {
        self.owners(id).len() as int
    }

    /// Whether `user` is an owner of `namespace`.
    pub open spec fn is_owner(self, user: i64, namespace: i64) -> bool {
        self.roles.contains_key((user, namespace)) && self.roles[(user, namespace)] == Role::Owner
    }

    /// Whether every namespace that has a member has an owner.
    pub open spec fn every_namespace_has_owner(self) -> bool {
        forall|k: (i64, i64)| #[trigger]
            self.roles.contains_key(k) ==> exists|u: i64| self.is_owner(u, k.1)
    }

    /// The memberships without those of namespace `id`.
    pub open spec fn roles_outside(self, id: i64) -> Map<(i64, i64), Role> {
        self.roles.restrict(Set::new(|k: (i64, i64)| k.1 != id))
    }

    /// The memberships without those of user `id`.
    pub open spec fn roles_without(self, id: i64) -> Map<(i64, i64), Role> {
        self.roles.restrict(Set::new(|k: (i64, i64)| k.0 != id))
    }

    /// What a lookup of a user by name finds.
    pub open spec fn user_id(self, name: Seq<char>) -> Option<i64> {
        if self.users.contains_key(name) {
            Some(self.users[name])
        } else {
            None
        }
    }

    /// What a lookup of a namespace by name finds.
    pub open spec fn namespace_id(self, name: Seq<char>) -> Option<i64> {
        if self.namespaces.contains_key(name) {
            Some(self.namespaces[name])
        } else {
            None
        }
    }

    /// The number of rows that the deletion of a membership changes.
    pub open spec fn memberships_of(self, user: i64, namespace: i64) -> int {
        if self.roles.contains_key((user, namespace)) {
            1
        } else {
            0
        }
    }

    /// Creates a user, to whom the engine gives the identifier `id`.
    pub open spec fn create_user(self, name: Seq<char>, id: i64) -> Step<i64> {
        if self.users.contains_key(name) {
            refused(self, DirectoryErrorView::AlreadyExists(SubjectView::User(name)))
        } else {
            Step { after: Directory { users: self.users.insert(name, id), ..self }, result: Ok(id) }
        }
    }

    /// Whether the engine refuses the row of a new namespace with the
    /// identifier `id`: identifiers are keys, and a key that is taken is
    /// refused.
    pub open spec fn refuses_namespace(self, id: i64) -> bool {
        self.has_namespace(id)
    }

    /// Whether the engine refuses the membership of `creator` in the new
    /// namespace `id`: a member has to be a user, and a user has one
    /// membership in a namespace.
    pub open spec fn refuses_owner(self, creator: i64, id: i64) -> bool {
        !self.has_user(creator) || self.roles.contains_key((creator, id))
    }

    /// Creates a namespace, to which the engine gives the identifier `id`,
    /// and makes `creator` its owner. The two rows are stored together or
    /// not at all: where the engine refuses the second, with `message`, the
    /// first is undone and the state is what it was.
    pub open spec fn create_namespace(
        self,
        name: Seq<char>,
        creator: i64,
        id: i64,
        message: Seq<char>,
    ) -> Step<i64> {
        if self.namespaces.contains_key(name) {
            refused(self, DirectoryErrorView::AlreadyExists(SubjectView::Namespace(name)))
        } else if self.refuses_namespace(id) || self.refuses_owner(creator, id) {
            refused(self, DirectoryErrorView::Storage(message))
        } else {
            Step {
                after: Directory {
                    namespaces: self.namespaces.insert(name, id),
                    roles: self.roles.insert((creator, id), Role::Owner),
                    ..self
                },
                result: Ok(id),
            }
        }
    }

    /// Deletes a user with the user's memberships: the user is looked up,
    /// the user's tasks are counted, and only then the row is deleted.
    pub open spec fn delete_user(self, name: Seq<char>) -> Step<()> {
        match presence_of(self.user_id(name), SubjectView::User(name)) {
            Err(e) => refused(self, e),
            Ok(id) => match usage_of(
                count_where(self.tasks, of_user(id)) as int,
                SubjectView::User(name),
            ) {
                Err(e) => refused(self, e),
                Ok(_) => Step {
                    after: Directory {
                        users: self.users.remove(name),
                        roles: self.roles_without(id),
                        ..self
                    },
                    result: Ok(()),
                },
            },
        }
    }

    /// Deletes a namespace with its memberships: the name is checked, the
    /// namespace is looked up, its tasks are counted, and only then the row
    /// is deleted.
    pub open spec fn delete_namespace(self, name: Seq<char>) -> Step<()> {
        match protection_of(name) {
            Err(e) => refused(self, e),
            Ok(_) => match presence_of(self.namespace_id(name), SubjectView::Namespace(name)) {
                Err(e) => refused(self, e),
                Ok(id) => match usage_of(
                    count_where(self.tasks, in_namespace(id)) as int,
                    SubjectView::Namespace(name),
                ) {
                    Err(e) => refused(self, e),
                    Ok(_) => Step {
                        after: Directory {
                            namespaces: self.namespaces.remove(name),
                            roles: self.roles_outside(id),
                            ..self
                        },
                        result: Ok(()),
                    },
                },
            },
        }
    }

    /// Gives a user a role in a namespace, in place of the role the user
    /// had: the role is checked, the namespace and the user are looked up,
    /// and the membership is stored.
    pub open spec fn add_user(self, namespace: Seq<char>, user: Seq<char>, role: Seq<char>) -> Step<
        (),
    > {
        match validation_of(role) {
            Err(e) => refused(self, e),
            Ok(given) => match presence_of(
                self.namespace_id(namespace),
                SubjectView::Namespace(namespace),
            ) {
                Err(e) => refused(self, e),
                Ok(n) => match presence_of(self.user_id(user), SubjectView::User(user)) {
                    Err(e) => refused(self, e),
                    Ok(u) => Step {
                        after: Directory { roles: self.roles.insert((u, n), given), ..self },
                        result: Ok(()),
                    },
                },
            },
        }
    }

    /// Takes a user out of a namespace: the namespace and the user are
    /// looked up, the last-owner rule is applied, and the membership is
    /// deleted; where there was none, nothing was found.
    pub open spec fn remove_user(self, namespace: Seq<char>, user: Seq<char>) -> Step<()> {
        match presence_of(self.namespace_id(namespace), SubjectView::Namespace(namespace)) {
            Err(e) => refused(self, e),
            Ok(n) => match presence_of(self.user_id(user), SubjectView::User(user)) {
                Err(e) => refused(self, e),
                Ok(u) => match removal_of(
                    self.is_owner(u, n),
                    self.owner_count(n),
                    user,
                    namespace,
                ) {
                    Err(e) => refused(self, e),
                    Ok(_) => match deletion_of(
                        self.memberships_of(u, n),
                        SubjectView::Membership { user, namespace },
                    ) {
                        Err(e) => refused(self, e),
                        Ok(_) => Step {
                            after: Directory { roles: self.roles.remove((u, n)), ..self },
                            result: Ok(()),
                        },
                    },
                },
            },
        }
    }
}

/// The second creation of a user of one name fails with `AlreadyExists` and
/// changes nothing: the name still stands for the user of the first
/// creation.
pub proof fn lemma_second_user_is_refused(d: Directory, name: Seq<char>, first: i64, second: i64)
    requires
        d.create_user(name, first).result.is_ok(),
    ensures
        d.create_user(name, first).after.create_user(name, second) == refused::<i64>(
            d.create_user(name, first).after,
            DirectoryErrorView::AlreadyExists(SubjectView::User(name)),
        ),
        d.create_user(name, first).after.users[name] == first,
{
}

/// The second creation of a namespace of one name fails with
/// `AlreadyExists` and changes nothing: the name still stands for the
/// namespace of the first creation, and no membership is added.
pub proof fn lemma_second_namespace_is_refused(
    d: Directory,
    name: Seq<char>,
    creator: i64,
    first: i64,
    other: i64,
    second: i64,
    message: Seq<char>,
)
    requires
        d.create_namespace(name, creator, first, message).result.is_ok(),
    ensures
        d.create_namespace(name, creator, first, message).after.create_namespace(
            name,
            other,
            second,
            message,
        ) == refused::<i64>(
            d.create_namespace(name, creator, first, message).after,
            DirectoryErrorView::AlreadyExists(SubjectView::Namespace(name)),
        ),
        d.create_namespace(name, creator, first, message).after.namespaces[name] == first,
{
}

/// A creation that fails changes nothing. Where the membership of the
/// creator is refused, because the creator is no user, the creation fails
/// with the engine's message and the namespace does not persist.
pub proof fn lemma_failed_creation_leaves_nothing(
    d: Directory,
    name: Seq<char>,
    creator: i64,
    id: i64,
    message: Seq<char>,
)
    ensures
        d.create_namespace(name, creator, id, message).result.is_err() ==> d.create_namespace(
            name,
            creator,
            id,
            message,
        ).after == d,
        !d.namespaces.contains_key(name) && !d.has_user(creator) ==> d.create_namespace(
            name,
            creator,
            id,
            message,
        ) == refused::<i64>(d, DirectoryErrorView::Storage(message)) && !d.create_namespace(
            name,
            creator,
            id,
            message,
        ).after.namespaces.contains_key(name),
{
}

/// A creation succeeds exactly where the name is free, the identifier is
/// new and the creator is a user without membership under that identifier.
pub proof fn lemma_creation_succeeds(
    d: Directory,
    name: Seq<char>,
    creator: i64,
    id: i64,
    message: Seq<char>,
)
    ensures
        d.create_namespace(name, creator, id, message).result.is_ok() <==> !d.namespaces.contains_key(
            name,
        ) && !d.has_namespace(id) && d.has_user(creator) && !d.roles.contains_key((creator, id)),
        d.wf() && !d.namespaces.contains_key(name) && !d.has_namespace(id) && d.has_user(creator)
            ==> d.create_namespace(name, creator, id, message).result == Ok::<
            i64,
            DirectoryErrorView,
        >(id),
{
    if d.wf() && d.roles.contains_key((creator, id)) {
        assert(d.has_namespace(id));
    }
}

/// The deletion of the default namespace fails with `Protected` and changes
/// nothing, whatever the state: whether the namespace exists, and however
/// many tasks belong to it.
pub proof fn lemma_default_is_protected(d: Directory)
    ensures
        d.delete_namespace(default_name()) == refused::<()>(d, DirectoryErrorView::Protected),
{
}

/// The deletion of a namespace that a task belongs to fails with `InUse`
/// and the number of its tasks, and changes nothing: the namespace and its
/// memberships stay.
pub proof fn lemma_namespace_in_use_stays(d: Directory, name: Seq<char>)
    requires
        name != default_name(),
        d.namespaces.contains_key(name),
        count_where(d.tasks, in_namespace(d.namespaces[name])) >= 1,
    ensures
        d.delete_namespace(name) == refused::<()>(
            d,
            DirectoryErrorView::InUse(
                SubjectView::Namespace(name),
                count_where(d.tasks, in_namespace(d.namespaces[name])) as int,
            ),
        ),
{
}

/// The deletion of a user who owns a task or has one assigned fails with
/// `InUse` and the number of these tasks, and changes nothing.
pub proof fn lemma_user_in_use_stays(d: Directory, name: Seq<char>)
    requires
        d.users.contains_key(name),
        count_where(d.tasks, of_user(d.users[name])) >= 1,
    ensures
        d.delete_user(name) == refused::<()>(
            d,
            DirectoryErrorView::InUse(
                SubjectView::User(name),
                count_where(d.tasks, of_user(d.users[name])) as int,
            ),
        ),
{
}

/// A namespace that was created has an identifier that no namespace had,
/// and exactly one member: its creator, a user, as owner. Nothing else
/// changes: the namespaces are those of before and the new one, the
/// memberships those of before and the creator's, and no other namespace
/// gains, loses or changes a member; users and tasks are what they were.
pub proof fn lemma_creator_is_the_only_owner(
    d: Directory,
    name: Seq<char>,
    creator: i64,
    id: i64,
    message: Seq<char>,
)
    requires
        d.wf(),
        d.create_namespace(name, creator, id, message).result.is_ok(),
    ensures
        !d.has_namespace(id),
        d.has_user(creator),
        d.create_namespace(name, creator, id, message).result == Ok::<i64, DirectoryErrorView>(id),
        d.create_namespace(name, creator, id, message).after.namespaces == d.namespaces.insert(
            name,
            id,
        ),
        d.create_namespace(name, creator, id, message).after.roles == d.roles.insert(
            (creator, id),
            Role::Owner,
        ),
        d.create_namespace(name, creator, id, message).after.users == d.users,
        d.create_namespace(name, creator, id, message).after.tasks == d.tasks,
        forall|u: i64| #[trigger]
            d.create_namespace(name, creator, id, message).after.roles.contains_key((u, id)) <==> u
                == creator,
        d.create_namespace(name, creator, id, message).after.roles[(creator, id)] == Role::Owner,
        forall|u: i64, n: i64|
            n != id ==> (#[trigger] d.create_namespace(
                name,
                creator,
                id,
                message,
            ).after.roles.contains_key((u, n)) <==> d.roles.contains_key((u, n))) && (
            d.roles.contains_key((u, n)) ==> d.create_namespace(
                name,
                creator,
                id,
                message,
            ).after.roles[(u, n)] == d.roles[(u, n)]),
{
    assert forall|u: i64| !d.roles.contains_key((u, id)) by {
        if d.roles.contains_key((u, id)) {
            assert(d.has_namespace(id));
        }
    }
}

/// Two namespaces of different names that are created one after the other
/// do not mix, whichever comes first: both creations succeed in either
/// order, the state is the same, and each namespace has its own creator as
/// its only member.
pub proof fn lemma_two_creations_do_not_mix(
    d: Directory,
    one: Seq<char>,
    creator_one: i64,
    id_one: i64,
    two: Seq<char>,
    creator_two: i64,
    id_two: i64,
    message: Seq<char>,
)
    requires
        d.wf(),
        one != two,
        id_one != id_two,
        !d.namespaces.contains_key(one),
        !d.namespaces.contains_key(two),
        !d.has_namespace(id_one),
        !d.has_namespace(id_two),
        d.has_user(creator_one),
        d.has_user(creator_two),
    ensures
        d.create_namespace(one, creator_one, id_one, message).result.is_ok(),
        d.create_namespace(one, creator_one, id_one, message).after.create_namespace(
            two,
            creator_two,
            id_two,
            message,
        ).result.is_ok(),
        d.create_namespace(one, creator_one, id_one, message).after.create_namespace(
            two,
            creator_two,
            id_two,
            message,
        ).after == d.create_namespace(two, creator_two, id_two, message).after.create_namespace(
            one,
            creator_one,
            id_one,
            message,
        ).after,
        forall|u: i64| #[trigger]
            d.create_namespace(one, creator_one, id_one, message).after.create_namespace(
                two,
                creator_two,
                id_two,
                message,
            ).after.roles.contains_key((u, id_one)) <==> u == creator_one,
        forall|u: i64| #[trigger]
            d.create_namespace(one, creator_one, id_one, message).after.create_namespace(
                two,
                creator_two,
                id_two,
                message,
            ).after.roles.contains_key((u, id_two)) <==> u == creator_two,
{
    assert forall|u: i64| !d.roles.contains_key((u, id_one)) && !d.roles.contains_key(
        (u, id_two),
    ) by {
        if d.roles.contains_key((u, id_one)) {
            assert(d.has_namespace(id_one));
        }
        if d.roles.contains_key((u, id_two)) {
            assert(d.has_namespace(id_two));
        }
    }
    let after_one = d.create_namespace(one, creator_one, id_one, message).after;
    let after_two = d.create_namespace(two, creator_two, id_two, message).after;
    lemma_new_namespace(d, one, id_one, id_two);
    lemma_new_namespace(d, two, id_two, id_one);
    let name_one = choose|n: Seq<char>| #[trigger] d.users.contains_key(n) && d.users[n] == creator_one;
    let name_two = choose|n: Seq<char>| #[trigger] d.users.contains_key(n) && d.users[n] == creator_two;
    assert(after_one.users.contains_key(name_two));
    assert(after_two.users.contains_key(name_one));
    assert(after_one.has_user(creator_two));
    assert(after_two.has_user(creator_one));
    let first = after_one.create_namespace(two, creator_two, id_two, message).after;
    let second = after_two.create_namespace(one, creator_one, id_one, message).after;
    assert(first.namespaces =~= second.namespaces);
    assert(first.roles =~= second.roles);
}

/// After a namespace named `name` got the identifier `id`, another
/// identifier that no namespace had is still no namespace's.
proof fn lemma_new_namespace(d: Directory, name: Seq<char>, id: i64, new: i64)
    requires
        !d.has_namespace(new),
        new != id,
    ensures
        !(Directory { namespaces: d.namespaces.insert(name, id), ..d }).has_namespace(new),
{
    let after = Directory { namespaces: d.namespaces.insert(name, id), ..d };
    if after.has_namespace(new) {
        let n = choose|n: Seq<char>| #[trigger]
            after.namespaces.contains_key(n) && after.namespaces[n] == new;
        assert(d.namespaces.contains_key(n) && d.namespaces[n] == new);
    }
}

/// The removal of the only owner of a namespace fails with `LastOwner` and
/// changes nothing.
pub proof fn lemma_only_owner_stays(d: Directory, namespace: Seq<char>, user: Seq<char>)
    requires
        d.namespaces.contains_key(namespace),
        d.users.contains_key(user),
        d.is_owner(d.users[user], d.namespaces[namespace]),
        d.owner_count(d.namespaces[namespace]) == 1,
    ensures
        d.remove_user(namespace, user) == refused::<()>(
            d,
            DirectoryErrorView::LastOwner { user, namespace },
        ),
{
}

/// The removal of a member who is no owner, and that of an owner of a
/// namespace with two owners or more, succeeds and takes just that
/// membership away.
pub proof fn lemma_other_members_can_leave(d: Directory, namespace: Seq<char>, user: Seq<char>)
    requires
        d.namespaces.contains_key(namespace),
        d.users.contains_key(user),
        d.roles.contains_key((d.users[user], d.namespaces[namespace])),
        !d.is_owner(d.users[user], d.namespaces[namespace]) || d.owner_count(
            d.namespaces[namespace],
        ) >= 2,
    ensures
        d.remove_user(namespace, user).result == Ok::<(), DirectoryErrorView>(()),
        d.remove_user(namespace, user).after.roles == d.roles.remove(
            (d.users[user], d.namespaces[namespace]),
        ),
        d.remove_user(namespace, user).after.users == d.users,
        d.remove_user(namespace, user).after.namespaces == d.namespaces,
{
}

/// Giving a user the same role twice is the same as giving it once: the
/// second time succeeds and changes nothing, and the user has the one
/// membership with that role.
pub proof fn lemma_adding_twice_is_adding_once(
    d: Directory,
    namespace: Seq<char>,
    user: Seq<char>,
    role: Seq<char>,
)
    requires
        d.add_user(namespace, user, role).result.is_ok(),
    ensures
        d.add_user(namespace, user, role).after.add_user(namespace, user, role) == d.add_user(
            namespace,
            user,
            role,
        ),
        d.add_user(namespace, user, role).after.roles[(d.users[user], d.namespaces[namespace])]
            == role_named(role).unwrap(),
{
    let once = d.add_user(namespace, user, role).after;
    let key = (d.users[user], d.namespaces[namespace]);
    let given = role_named(role).unwrap();
    assert(once.roles.insert(key, given) =~= once.roles);
}

/// A membership of `d` is still the membership of a user in a namespace in
/// a state that keeps the names of that user and of that namespace.
proof fn lemma_still_held(d: Directory, after: Directory, k: (i64, i64))
    requires
        d.wf(),
        d.roles.contains_key(k),
        forall|n: Seq<char>| #[trigger]
            d.users.contains_key(n) && d.users[n] == k.0 ==> after.users.contains_key(n)
                && after.users[n] == k.0,
        forall|m: Seq<char>| #[trigger]
            d.namespaces.contains_key(m) && d.namespaces[m] == k.1
                ==> after.namespaces.contains_key(m) && after.namespaces[m] == k.1,
    ensures
        after.has_user(k.0),
        after.has_namespace(k.1),
{
    assert(d.has_user(k.0) && d.has_namespace(k.1));
    let n = choose|n: Seq<char>| #[trigger] d.users.contains_key(n) && d.users[n] == k.0;
    let m = choose|m: Seq<char>| #[trigger] d.namespaces.contains_key(m) && d.namespaces[m] == k.1;
    assert(after.users.contains_key(n) && after.users[n] == k.0);
    assert(after.namespaces.contains_key(m) && after.namespaces[m] == k.1);
}

/// Every membership stays the membership of a user in a namespace that the
/// state holds, whatever is created.
pub proof fn lemma_creations_keep_integrity(
    d: Directory,
    name: Seq<char>,
    creator: i64,
    id: i64,
    message: Seq<char>,
)
    requires
        d.wf(),
    ensures
        d.create_user(name, id).after.wf(),
        d.create_namespace(name, creator, id, message).after.wf(),
{
    let with_user = d.create_user(name, id).after;
    assert forall|k: (i64, i64)| #[trigger] with_user.roles.contains_key(k) implies with_user.has_user(
        k.0,
    ) && with_user.has_namespace(k.1) by {
        lemma_still_held(d, with_user, k);
    }
    let with_namespace = d.create_namespace(name, creator, id, message).after;
    assert forall|k: (i64, i64)| #[trigger]
        with_namespace.roles.contains_key(k) implies with_namespace.has_user(k.0)
        && with_namespace.has_namespace(k.1) by {
        if d.roles.contains_key(k) {
            lemma_still_held(d, with_namespace, k);
        } else {
            assert(k == (creator, id));
            let n = choose|n: Seq<char>| #[trigger] d.users.contains_key(n) && d.users[n] == creator;
            assert(with_namespace.users.contains_key(n) && with_namespace.users[n] == k.0);
            assert(with_namespace.namespaces.contains_key(name) && with_namespace.namespaces[name]
                == k.1);
        }
    }
}

/// Every membership stays the membership of a user in a namespace that the
/// state holds, whatever is deleted: the memberships of what is deleted go
/// with it.
pub proof fn lemma_deletions_keep_integrity(d: Directory, name: Seq<char>)
    requires
        d.wf(),
    ensures
        d.delete_user(name).after.wf(),
        d.delete_namespace(name).after.wf(),
{
    let without_user = d.delete_user(name).after;
    assert(without_user.roles.dom().finite()) by {
        if d.delete_user(name).result.is_ok() {
            assert(without_user.roles.dom() =~= d.roles.dom().intersect(
                Set::new(|k: (i64, i64)| k.0 != d.users[name]),
            ));
        }
    }
    assert forall|k: (i64, i64)| #[trigger] without_user.roles.contains_key(k) implies without_user.has_user(
        k.0,
    ) && without_user.has_namespace(k.1) by {
        lemma_still_held(d, without_user, k);
    }
    let without_namespace = d.delete_namespace(name).after;
    assert(without_namespace.roles.dom().finite()) by {
        if d.delete_namespace(name).result.is_ok() {
            assert(without_namespace.roles.dom() =~= d.roles.dom().intersect(
                Set::new(|k: (i64, i64)| k.1 != d.namespaces[name]),
            ));
        }
    }
    assert forall|k: (i64, i64)| #[trigger]
        without_namespace.roles.contains_key(k) implies without_namespace.has_user(k.0)
        && without_namespace.has_namespace(k.1) by {
        lemma_still_held(d, without_namespace, k);
    }
}

/// Every membership stays the membership of a user in a namespace that the
/// state holds, whoever is given a role or taken out.
pub proof fn lemma_memberships_keep_integrity(
    d: Directory,
    namespace: Seq<char>,
    user: Seq<char>,
    role: Seq<char>,
)
    requires
        d.wf(),
    ensures
        d.add_user(namespace, user, role).after.wf(),
        d.remove_user(namespace, user).after.wf(),
{
    let added = d.add_user(namespace, user, role).after;
    assert forall|k: (i64, i64)| #[trigger] added.roles.contains_key(k) implies added.has_user(
        k.0,
    ) && added.has_namespace(k.1) by {
        if d.roles.contains_key(k) {
            lemma_still_held(d, added, k);
        } else {
            assert(added.users.contains_key(user) && added.users[user] == k.0);
            assert(added.namespaces.contains_key(namespace) && added.namespaces[namespace]
                == k.1);
        }
    }
    let removed = d.remove_user(namespace, user).after;
    assert forall|k: (i64, i64)| #[trigger] removed.roles.contains_key(k) implies removed.has_user(
        k.0,
    ) && removed.has_namespace(k.1) by {
        lemma_still_held(d, removed, k);
    }
}

/// The owners of a namespace are finitely many, and a membership is among
/// them where it is of that namespace and an owner's.
proof fn lemma_owners(d: Directory, id: i64)
    requires
        d.wf(),
    ensures
        d.owners(id).finite(),
        forall|u: i64| d.owners(id).contains((u, id)) <==> d.is_owner(u, id),
{
    assert forall|u: i64| d.owners(id).contains((u, id)) <==> d.is_owner(u, id) by {}
}

/// A namespace that is created keeps every namespace with an owner.
pub proof fn lemma_creation_keeps_owners(
    d: Directory,
    name: Seq<char>,
    creator: i64,
    id: i64,
    message: Seq<char>,
)
    requires
        d.every_namespace_has_owner(),
    ensures
        d.create_namespace(name, creator, id, message).after.every_namespace_has_owner(),
{
    let after = d.create_namespace(name, creator, id, message).after;
    if d.create_namespace(name, creator, id, message).result.is_ok() {
        assert forall|k: (i64, i64)| #[trigger] after.roles.contains_key(k) implies exists|u: i64|
            after.is_owner(u, k.1) by {
            if k.1 == id {
                assert(after.is_owner(creator, k.1));
            } else {
                assert(d.roles.contains_key(k));
                let u = choose|u: i64| d.is_owner(u, k.1);
                assert(after.is_owner(u, k.1));
            }
        }
    }
}

/// A removal keeps every namespace with an owner: the last-owner rule sees
/// to it.
pub proof fn lemma_removal_keeps_owners(d: Directory, namespace: Seq<char>, user: Seq<char>)
    requires
        d.wf(),
        d.every_namespace_has_owner(),
    ensures
        d.remove_user(namespace, user).after.every_namespace_has_owner(),
{
    let step = d.remove_user(namespace, user);
    if step.result.is_ok() {
        let gone = (d.users[user], d.namespaces[namespace]);
        assert forall|k: (i64, i64)| #[trigger] step.after.roles.contains_key(k) implies exists|
            u: i64,
        | step.after.is_owner(u, k.1) by {
            assert(d.roles.contains_key(k));
            let u = choose|u: i64| d.is_owner(u, k.1);
            if (u, k.1) == gone {
                lemma_owners(d, gone.1);
                let owners = d.owners(gone.1);
                assert(owners.contains(gone));
                assert(owners.len() >= 2);
                let rest = owners.remove(gone);
                assert(rest.len() >= 1);
                let other = rest.choose();
                assert(rest.contains(other));
                assert(owners.contains(other));
                assert(other.1 == gone.1);
                assert(d.is_owner(other.0, other.1));
                assert(step.after.is_owner(other.0, k.1));
            } else {
                assert(step.after.is_owner(u, k.1));
            }
        }
    }
}

/// The deletion of a namespace keeps every other namespace with an owner.
pub proof fn lemma_namespace_deletion_keeps_owners(d: Directory, name: Seq<char>)
    requires
        d.every_namespace_has_owner(),
    ensures
        d.delete_namespace(name).after.every_namespace_has_owner(),
{
    let step = d.delete_namespace(name);
    if step.result.is_ok() {
        assert forall|k: (i64, i64)| #[trigger] step.after.roles.contains_key(k) implies exists|
            u: i64,
        | step.after.is_owner(u, k.1) by {
            assert(d.roles.contains_key(k));
            let u = choose|u: i64| d.is_owner(u, k.1);
            assert(step.after.roles.contains_key((u, k.1)));
            assert(step.after.is_owner(u, k.1));
        }
    }
}

/// A new role for the only owner can leave a namespace without owner: the
/// last-owner rule guards the removal of a membership, not the change of a
/// role. There is a state in which every namespace has an owner, and a
/// change of role that succeeds, after which one has none.
pub proof fn lemma_new_role_can_leave_no_owner()
    ensures
        exists|d: Directory, namespace: Seq<char>, user: Seq<char>, role: Seq<char>|
            d.wf() && d.every_namespace_has_owner() && (#[trigger] d.add_user(
                namespace,
                user,
                role,
            )).result.is_ok() && !d.add_user(namespace, user, role).after.every_namespace_has_owner(),
{
    reveal_strlit("owner");
    reveal_strlit("admin");
    reveal_strlit("member");
    reveal_strlit("viewer");
    let user = "u"@;
    let namespace = "n"@;
    let role = "member"@;
    let d = Directory {
        users: Map::empty().insert(user, 1i64),
        namespaces: Map::empty().insert(namespace, 1i64),
        roles: Map::empty().insert((1i64, 1i64), Role::Owner),
        tasks: Seq::empty(),
    };
    assert(role[0] != "owner"@[0]);
    assert(role[0] != "admin"@[0]);
    assert(role_named(role) == Some(Role::Member));
    assert(d.every_namespace_has_owner()) by {
        assert forall|k: (i64, i64)| #[trigger] d.roles.contains_key(k) implies exists|u: i64|
            d.is_owner(u, k.1) by {
            assert(k == (1i64, 1i64));
            assert(d.is_owner(1i64, k.1));
        }
    }
    let step = d.add_user(namespace, user, role);
    assert(step.result.is_ok());
    assert(step.after.roles.contains_key((1i64, 1i64)));
    assert(!step.after.every_namespace_has_owner()) by {
        assert forall|u: i64| !step.after.is_owner(u, 1i64) by {}
    }
}

} // verus!
