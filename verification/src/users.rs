//! Users whose permissions derive from their role.

use crate::permission::{role_grants, Permission, PermissionSet, Role};
use crate::reply::Status;
use crate::store::{inserted, is_listing, lookup, updated, Record, RecordStore};
use crate::text::{decimal, decimal_string, join3, joined};
use vstd::prelude::*;
use vstd::string::*;

verus! {

/// A user of the system.
#[derive(Debug, PartialEq, Eq)]
pub struct User {
    pub id: u32,
    pub username: String,
    pub role: Role,
    pub permissions: PermissionSet,
}

/// What a `User` stands for.
pub struct UserView {
    pub id: u32,
    pub username: Seq<char>,
    pub role: Role,
    pub permissions: Set<Permission>,
}

impl View for User {
    type V = UserView;

    open spec fn view(&self) -> UserView {
        UserView {
            id: self.id,
            username: self.username@,
            role: self.role,
            permissions: self.permissions@,
        }
    }
}

impl Clone for User {
    fn clone(&self) -> (copy: Self)
        ensures
            copy@ == self@,
    {
        User {
            id: self.id,
            username: self.username.clone(),
            role: self.role,
            permissions: self.permissions,
        }
    }
}

impl User {
    /// Whether the user holds `permission`.
    pub fn has_permission(&self, permission: &Permission) -> (held: bool)
        ensures
            held == self@.permissions.contains(*permission),
    {
        self.permissions.contains(*permission)
    }
}

/// A change to a stored user.
#[derive(Clone, Copy, Debug, PartialEq, Eq)]
pub enum UserPatch {
    /// Replace the role, and with it the permissions.
    Role(Role),
    /// Add permissions to those the user holds.
    Grant(PermissionSet),
}

/// What a `UserPatch` stands for.
pub enum UserPatchView {
    Role(Role),
    Grant(Set<Permission>),
}

impl View for UserPatch {
    type V = UserPatchView;

    open spec fn view(&self) -> UserPatchView {
        match *self {
            UserPatch::Role(role) => UserPatchView::Role(role),
            UserPatch::Grant(permissions) => UserPatchView::Grant(permissions@),
        }
    }
}

/// `u` with the permissions of its role, and no others.
pub open spec fn with_role(u: UserView, role: Role) -> UserView {
    UserView { role, permissions: role_grants(role), ..u }
}

/// `u` with `extra` added to its permissions.
pub open spec fn with_grant(u: UserView, extra: Set<Permission>) -> UserView {
    UserView { permissions: u.permissions.union(extra), ..u }
}

impl Record for User {
    type Patch = UserPatch;

    open spec fn key(v: UserView) -> u32 {
        v.id
    }

    open spec fn patched(v: UserView, p: UserPatchView) -> UserView {
        match p {
            UserPatchView::Role(role) => with_role(v, role),
            UserPatchView::Grant(extra) => with_grant(v, extra),
        }
    }

    proof fn patch_keeps_key(v: UserView, p: UserPatchView) {
    }

    fn id(&self) -> (k: u32) {
        self.id
    }

    fn duplicate(&self) -> (copy: Self) {
        self.clone()
    }

    fn apply(&mut self, patch: UserPatch) {
        match patch {
            UserPatch::Role(role) => {
                self.role = role;
                self.permissions.clear();
                let defaults = PermissionSet::for_role(role);
                self.permissions.extend(&defaults);
                assert(self.permissions@ =~= role_grants(role));
            },
            UserPatch::Grant(extra) => {
                self.permissions.extend(&extra);
            },
        }
    }
}

/// The users by identifier, after a request to create `u`: a taken identifier
/// leaves them as they are; a free one takes `u` with the permissions of its
/// role, whatever permissions the request named.
pub open spec fn created(users: Map<u32, UserView>, u: UserView) -> Map<u32, UserView> {
    inserted::<User>(users, with_role(u, u.role))
}

/// The users after a request to give user `id` the role `role`.
pub open spec fn role_changed(users: Map<u32, UserView>, id: u32, role: Role) -> Map<
    u32,
    UserView,
> {
    updated::<User>(users, id, UserPatchView::Role(role))
}

/// The users after a request to grant `extra` to user `id`.
pub open spec fn permissions_granted(
    users: Map<u32, UserView>,
    id: u32,
    extra: Set<Permission>,
) -> Map<u32, UserView> {
    updated::<User>(users, id, UserPatchView::Grant(extra))
}

/// Every user is stored under its identifier and holds at least the
/// permissions of its role.
pub open spec fn consistent(users: Map<u32, UserView>) -> bool {
    forall|id: u32| #[trigger]
        users.contains_key(id) ==> users[id].id == id && role_grants(users[id].role).subset_of(
            users[id].permissions,
        )
}

/// The name of a role, as messages show it.
pub open spec fn role_name(role: Role) -> Seq<char> {
    match role {
        Role::Admin => "Admin"@,
        Role::Doctor => "Doctor"@,
        Role::Nurse => "Nurse"@,
    }
}

/// What the service says when the identifier of a new user is taken.
pub open spec fn user_exists_message(id: u32) -> Seq<char> {
    joined("User with ID "@, decimal(id as nat), " already exists."@)
}

/// What the service says when it has created a user.
pub open spec fn user_created_message(username: Seq<char>) -> Seq<char> {
    joined("User '"@, username, "' created successfully!"@)
}

/// What the service says when there is no user `id`.
pub open spec fn user_not_found_message(id: u32) -> Seq<char> {
    joined("User with ID "@, decimal(id as nat), " not found."@)
}

/// What the service says when it has changed the role of user `id`.
pub open spec fn role_updated_message(id: u32, role: Role) -> Seq<char> {
    joined("User "@, decimal(id as nat), " role updated to "@) + role_name(role)
}

/// What the service says when it has granted permissions to user `id`.
pub open spec fn permissions_assigned_message(id: u32) -> Seq<char> {
    joined("Permissions assigned to user "@, decimal(id as nat), "."@)
}

/// The users that the service holds.
pub struct AppState {
    users: RecordStore<User>,
}

impl View for AppState {
    type V = Map<u32, UserView>;

    closed spec fn view(&self) -> Map<u32, UserView> {
        self.users@
    }
}

impl AppState {
    #[verifier::type_invariant]
    spec fn sound(self) -> bool {
        consistent(self.users@)
    }

    /// A state without users.
    pub fn new() -> (state: Self)
        ensures
            state@ == Map::<u32, UserView>::empty(),
    {
        AppState { users: RecordStore::new() }
    }
}

impl Default for AppState {
    fn default() -> (state: Self)
        ensures
            state@ == Map::<u32, UserView>::empty(),
    {
        AppState::new()
    }
}

fn role_str(role: Role) -> (name: &'static str)
    ensures
        name@ == role_name(role),
{
    match role {
        Role::Admin => "Admin",
        Role::Doctor => "Doctor",
        Role::Nurse => "Nurse",
    }
}

/// Creates a user under the identifier that the request names. The user
/// starts with the permissions of its role; the permissions in the request
/// are not looked at.
pub fn create_user(user_input: User, state: &mut AppState) -> (reply: (Status, String))
    ensures
        final(state)@ == created(old(state)@, user_input@),
        consistent(final(state)@),
        old(state)@.contains_key(user_input.id) ==> reply.0 == Status::Conflict && reply.1@
            == user_exists_message(user_input.id),
        !old(state)@.contains_key(user_input.id) ==> reply.0 == Status::Created && reply.1@
            == user_created_message(user_input.username@),
{
    proof {
        use_type_invariant(&*state);
    }
    let mut new_user = user_input;
    new_user.permissions = PermissionSet::for_role(new_user.role);
    let created_message = join3("User '", new_user.username.as_str(), "' created successfully!");
    let id = new_user.id;
    // The store is taken out while it changes and put back after, so that
    // the state is sound at every point in between.
    let mut users = RecordStore::new();
    std::mem::swap(&mut users, &mut state.users);
    let outcome = users.insert(new_user);
    state.users = users;
    match outcome {
        Ok(_) => (Status::Created, created_message),
        Err(_) => (
            Status::Conflict,
            join3("User with ID ", decimal_string(id).as_str(), " already exists."),
        ),
    }
}

/// Gives user `id` the role `new_role`, and exactly the permissions of that
/// role: what the user held before, granted or not, is dropped.
pub fn update_user_role(id: u32, new_role: Role, state: &mut AppState) -> (reply: (Status, String))
    ensures
        final(state)@ == role_changed(old(state)@, id, new_role),
        consistent(final(state)@),
        old(state)@.contains_key(id) ==> reply.0 == Status::Success && reply.1@
            == role_updated_message(id, new_role),
        !old(state)@.contains_key(id) ==> reply.0 == Status::NotFound && reply.1@
            == user_not_found_message(id),
{
    proof {
        use_type_invariant(&*state);
    }
    let mut users = RecordStore::new();
    std::mem::swap(&mut users, &mut state.users);
    let outcome = users.update(id, UserPatch::Role(new_role));
    state.users = users;
    match outcome {
        Ok(_) => {
            let mut message = join3("User ", decimal_string(id).as_str(), " role updated to ");
            message.append(role_str(new_role));
            (Status::Success, message)
        },
        Err(_) => (
            Status::NotFound,
            join3("User with ID ", decimal_string(id).as_str(), " not found."),
        ),
    }
}

/// Adds `permissions` to those that user `id` holds; none is taken away.
pub fn assign_permissions(id: u32, permissions: PermissionSet, state: &mut AppState) -> (reply: (
    Status,
    String,
))
    ensures
        final(state)@ == permissions_granted(old(state)@, id, permissions@),
        consistent(final(state)@),
        old(state)@.contains_key(id) ==> reply.0 == Status::Success && reply.1@
            == permissions_assigned_message(id),
        !old(state)@.contains_key(id) ==> reply.0 == Status::NotFound && reply.1@
            == user_not_found_message(id),
{
    proof {
        use_type_invariant(&*state);
    }
    let mut users = RecordStore::new();
    std::mem::swap(&mut users, &mut state.users);
    let outcome = users.update(id, UserPatch::Grant(permissions));
    state.users = users;
    match outcome {
        Ok(_) => (
            Status::Success,
            join3("Permissions assigned to user ", decimal_string(id).as_str(), "."),
        ),
        Err(_) => (
            Status::NotFound,
            join3("User with ID ", decimal_string(id).as_str(), " not found."),
        ),
    }
}

/// A copy of user `id`, if there is one.
pub fn get_user(id: u32, state: &AppState) -> (found: Option<User>)
    ensures
        consistent(state@),
        match found {
            Some(user) => lookup::<User>(state@, id) == Some(user@),
            None => lookup::<User>(state@, id) is None,
        },
{
    proof {
        use_type_invariant(state);
    }
    state.users.get(id)
}

/// A copy of every user, in no particular order.
pub fn list_users(state: &AppState) -> (users: Vec<User>)
    ensures
        consistent(state@),
        is_listing::<User>(state@, users@.map_values(|u: User| u@)),
{
    proof {
        use_type_invariant(state);
    }
    state.users.list()
}

/// A request that changes the users.
pub enum UserRequest {
    Create(UserView),
    ChangeRole(u32, Role),
    Grant(u32, Set<Permission>),
}

/// The users after one request.
pub open spec fn handled(users: Map<u32, UserView>, request: UserRequest) -> Map<u32, UserView> {
    match request {
        UserRequest::Create(u) => created(users, u),
        UserRequest::ChangeRole(id, role) => role_changed(users, id, role),
        UserRequest::Grant(id, extra) => permissions_granted(users, id, extra),
    }
}

/// The users of a service that started empty and took `requests` in order.
pub open spec fn served(requests: Seq<UserRequest>) -> Map<u32, UserView>
    decreases requests.len(),
{
    if requests.len() == 0 {
        Map::empty()
    } else {
        handled(served(requests.drop_last()), requests.last())
    }
}

/// No request breaks consistency: every user stays under its identifier and
/// keeps at least the permissions of its role.
pub proof fn lemma_request_keeps_consistency(users: Map<u32, UserView>, request: UserRequest)
    requires
        consistent(users),
    ensures
        consistent(handled(users, request)),
        users.dom().subset_of(handled(users, request).dom()),
{
}

/// Whatever requests a service has taken, its users are consistent.
pub proof fn lemma_served_is_consistent(requests: Seq<UserRequest>)
    ensures
        consistent(served(requests)),
    decreases requests.len(),
{
    if requests.len() > 0 {
        lemma_served_is_consistent(requests.drop_last());
        lemma_request_keeps_consistency(served(requests.drop_last()), requests.last());
    }
}

/// The identifier of a request to create a user is taken from then on,
/// whatever requests follow.
pub proof fn lemma_created_identifier_stays(requests: Seq<UserRequest>, i: int, u: UserView)
    requires
        0 <= i < requests.len(),
        requests[i] == UserRequest::Create(u),
    ensures
        served(requests).contains_key(u.id),
    decreases requests.len(),
{
    if i < requests.len() - 1 {
        lemma_created_identifier_stays(requests.drop_last(), i, u);
        lemma_served_is_consistent(requests.drop_last());
        lemma_request_keeps_consistency(served(requests.drop_last()), requests.last());
    }
}

/// A request to create a user under an identifier that an earlier request to
/// create named changes nothing: it meets a taken identifier, which
/// `create_user` answers with `Conflict`.
pub proof fn lemma_second_create_conflicts(
    requests: Seq<UserRequest>,
    i: int,
    first: UserView,
    again: UserView,
)
    requires
        0 <= i < requests.len(),
        requests[i] == UserRequest::Create(first),
        first.id == again.id,
    ensures
        served(requests).contains_key(again.id),
        created(served(requests), again) == served(requests),
{
    lemma_created_identifier_stays(requests, i, first);
}

/// An identifier that no request to create named is free.
pub proof fn lemma_never_created_is_absent(requests: Seq<UserRequest>, id: u32)
    requires
        forall|i: int|
            0 <= i < requests.len() ==> (#[trigger] requests[i] matches UserRequest::Create(u)
                ==> u.id != id),
    ensures
        !served(requests).contains_key(id),
        lookup::<User>(served(requests), id) is None,
    decreases requests.len(),
{
    if requests.len() > 0 {
        let earlier = requests.drop_last();
        assert forall|i: int| 0 <= i < earlier.len() implies (#[trigger] earlier[i] matches UserRequest::Create(
            u,
        ) ==> u.id != id) by {
            assert(requests[i] == earlier[i]);
        }
        lemma_never_created_is_absent(earlier, id);
        assert(requests[requests.len() - 1] == requests.last());
    }
}

/// A user starts with exactly the permissions of its role, whatever
/// permissions the request to create it named.
pub proof fn lemma_create_gives_role_permissions(users: Map<u32, UserView>, u: UserView)
    requires
        !users.contains_key(u.id),
    ensures
        lookup::<User>(created(users, u), u.id) == Some(with_role(u, u.role)),
        created(users, u)[u.id].permissions == role_grants(u.role),
{
}

/// After a change of role the user holds exactly the permissions of the new
/// role, whatever it held before; its identifier and name are as before.
pub proof fn lemma_role_change_resets_permissions(users: Map<u32, UserView>, id: u32, role: Role)
    requires
        users.contains_key(id),
    ensures
        lookup::<User>(role_changed(users, id, role), id) == Some(
            (UserView {
                id: users[id].id,
                username: users[id].username,
                role,
                permissions: role_grants(role),
            }),
        ),
{
}

/// Granting the same permissions twice in a row gives what granting them
/// once gives.
pub proof fn lemma_grant_is_idempotent(users: Map<u32, UserView>, id: u32, extra: Set<Permission>)
    ensures
        permissions_granted(permissions_granted(users, id, extra), id, extra)
            == permissions_granted(users, id, extra),
{
    if users.contains_key(id) {
        let once = with_grant(users[id], extra);
        assert(once.permissions.union(extra) =~= once.permissions);
        assert(permissions_granted(permissions_granted(users, id, extra), id, extra)
            =~= permissions_granted(users, id, extra));
    }
}

/// Granting one set and then another gives the union of both with what the
/// user held: nothing is taken away.
pub proof fn lemma_grants_accumulate(
    users: Map<u32, UserView>,
    id: u32,
    first: Set<Permission>,
    second: Set<Permission>,
)
    requires
        users.contains_key(id),
    ensures
        permissions_granted(permissions_granted(users, id, first), id, second)
            == permissions_granted(users, id, first.union(second)),
        permissions_granted(permissions_granted(users, id, first), id, second)[id].permissions
            == users[id].permissions.union(first).union(second),
        users[id].permissions.subset_of(
            permissions_granted(permissions_granted(users, id, first), id, second)[id].permissions,
        ),
{
    let held = users[id].permissions;
    assert(held.union(first).union(second) =~= held.union(first.union(second)));
    assert(permissions_granted(permissions_granted(users, id, first), id, second)
        =~= permissions_granted(users, id, first.union(second)));
}

} // verus!
