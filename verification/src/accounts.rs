//! Plain user accounts, under identifiers that the caller chooses.

use crate::patch::{optional_text, overlay, set_if_present};
use crate::reply::Status;
use crate::store::{inserted, is_listing, keyed, lookup, updated, Record, RecordStore};
use crate::text::{decimal, decimal_string, join3, joined};
use crate::users::{user_created_message, user_exists_message, user_not_found_message};
use vstd::prelude::*;

verus! {

/// A user account.
#[derive(Debug, PartialEq, Eq)]
pub struct Account {
    pub id: u32,
    pub username: String,
    pub email: String,
    pub phone_no: String,
    pub password: String,
}

/// What an `Account` stands for.
pub struct AccountView {
    pub id: u32,
    pub username: Seq<char>,
    pub email: Seq<char>,
    pub phone_no: Seq<char>,
    pub password: Seq<char>,
}

impl View for Account {
    type V = AccountView;

    open spec fn view(&self) -> AccountView {
        AccountView {
            id: self.id,
            username: self.username@,
            email: self.email@,
            phone_no: self.phone_no@,
            password: self.password@,
        }
    }
}

impl Clone for Account {
    fn clone(&self) -> (copy: Self)
        ensures
            copy@ == self@,
    {
        Account {
            id: self.id,
            username: self.username.clone(),
            email: self.email.clone(),
            phone_no: self.phone_no.clone(),
            password: self.password.clone(),
        }
    }
}

/// A sparse change to an account: a field that is `None` stays as it is.
/// The identifier cannot be changed.
#[derive(Debug, PartialEq, Eq)]
pub struct AccountPatch {
    pub username: Option<String>,
    pub email: Option<String>,
    pub phone_no: Option<String>,
    pub password: Option<String>,
}

/// What an `AccountPatch` stands for.
pub struct AccountPatchView {
    pub username: Option<Seq<char>>,
    pub email: Option<Seq<char>>,
    pub phone_no: Option<Seq<char>>,
    pub password: Option<Seq<char>>,
}

impl View for AccountPatch {
    type V = AccountPatchView;

    open spec fn view(&self) -> AccountPatchView {
        AccountPatchView {
            username: optional_text(self.username),
            email: optional_text(self.email),
            phone_no: optional_text(self.phone_no),
            password: optional_text(self.password),
        }
    }
}

impl Record for Account {
    type Patch = AccountPatch;

    open spec fn key(v: AccountView) -> u32 {
        v.id
    }

    open spec fn patched(v: AccountView, p: AccountPatchView) -> AccountView {
        AccountView {
            id: v.id,
            username: overlay(v.username, p.username),
            email: overlay(v.email, p.email),
            phone_no: overlay(v.phone_no, p.phone_no),
            password: overlay(v.password, p.password),
        }
    }

    proof fn patch_keeps_key(v: AccountView, p: AccountPatchView) {
    }

    fn id(&self) -> (k: u32) {
        self.id
    }

    fn duplicate(&self) -> (copy: Self) {
        self.clone()
    }

    fn apply(&mut self, patch: AccountPatch) {
        set_if_present(&mut self.username, patch.username);
        set_if_present(&mut self.email, patch.email);
        set_if_present(&mut self.phone_no, patch.phone_no);
        set_if_present(&mut self.password, patch.password);
    }
}

/// What the service says when it has changed account `id`.
pub open spec fn user_updated_message(id: u32) -> Seq<char> {
    joined("User "@, decimal(id as nat), " updated successfully."@)
}

/// The accounts that the service holds.
pub struct AppState {
    accounts: RecordStore<Account>,
}

impl View for AppState {
    type V = Map<u32, AccountView>;

    closed spec fn view(&self) -> Map<u32, AccountView> {
        self.accounts@
    }
}

impl AppState {
    /// A state without accounts.
    pub fn new() -> (state: Self)
        ensures
            state@ == Map::<u32, AccountView>::empty(),
    {
        AppState { accounts: RecordStore::new() }
    }
}

impl Default for AppState {
    fn default() -> (state: Self)
        ensures
            state@ == Map::<u32, AccountView>::empty(),
    {
        AppState::new()
    }
}

/// Creates an account under the identifier that the request names, unless
/// that identifier is taken.
pub fn create_account(account_input: Account, state: &mut AppState) -> (reply: (Status, String))
    ensures
        final(state)@ == inserted::<Account>(old(state)@, account_input@),
        keyed::<Account>(final(state)@),
        old(state)@.contains_key(account_input.id) ==> reply.0 == Status::Conflict && reply.1@
            == user_exists_message(account_input.id),
        !old(state)@.contains_key(account_input.id) ==> reply.0 == Status::Created && reply.1@
            == user_created_message(account_input.username@),
{
    let id = account_input.id;
    let created_message = join3(
        "User '",
        account_input.username.as_str(),
        "' created successfully!",
    );
    match state.accounts.insert(account_input) {
        Ok(_) => (Status::Created, created_message),
        Err(_) => (
            Status::Conflict,
            join3("User with ID ", decimal_string(id).as_str(), " already exists."),
        ),
    }
}

/// Overwrites the fields of account `id` that `patch` names.
pub fn update_account(id: u32, patch: AccountPatch, state: &mut AppState) -> (reply: (
    Status,
    String,
))
    ensures
        final(state)@ == updated::<Account>(old(state)@, id, patch@),
        keyed::<Account>(final(state)@),
        old(state)@.contains_key(id) ==> reply.0 == Status::Success && reply.1@
            == user_updated_message(id),
        !old(state)@.contains_key(id) ==> reply.0 == Status::NotFound && reply.1@
            == user_not_found_message(id),
{
    match state.accounts.update(id, patch) {
        Ok(_) => (
            Status::Success,
            join3("User ", decimal_string(id).as_str(), " updated successfully."),
        ),
        Err(_) => (
            Status::NotFound,
            join3("User with ID ", decimal_string(id).as_str(), " not found."),
        ),
    }
}

/// A copy of account `id`, if there is one.
pub fn get_account(id: u32, state: &AppState) -> (found: Option<Account>)
    ensures
        keyed::<Account>(state@),
        match found {
            Some(account) => lookup::<Account>(state@, id) == Some(account@),
            None => lookup::<Account>(state@, id) is None,
        },
{
    state.accounts.get(id)
}

/// A copy of every account, in no particular order.
pub fn list_accounts(state: &AppState) -> (accounts: Vec<Account>)
    ensures
        keyed::<Account>(state@),
        is_listing::<Account>(state@, accounts@.map_values(|a: Account| a@)),
{
    state.accounts.list()
}

/// After an update, a lookup finds a record that holds the patch's value in
/// every field that the patch names and the old value in every other field.
pub proof fn lemma_update_keeps_untouched_fields(
    accounts: Map<u32, AccountView>,
    id: u32,
    patch: AccountPatchView,
)
    requires
        accounts.contains_key(id),
    ensures
        lookup::<Account>(updated::<Account>(accounts, id, patch), id) matches Some(after) && {
            let before = accounts[id];
            &&& after.id == before.id
            &&& after.username == overlay(before.username, patch.username)
            &&& after.email == overlay(before.email, patch.email)
            &&& after.phone_no == overlay(before.phone_no, patch.phone_no)
            &&& after.password == overlay(before.password, patch.password)
        },
{
}

/// A patch that names no field changes nothing.
pub proof fn lemma_empty_patch_changes_nothing(accounts: Map<u32, AccountView>, id: u32)
    ensures
        updated::<Account>(
            accounts,
            id,
            (AccountPatchView { username: None, email: None, phone_no: None, password: None }),
        ) == accounts,
{
    let patch = AccountPatchView { username: None, email: None, phone_no: None, password: None };
    assert(updated::<Account>(accounts, id, patch) =~= accounts);
}

} // verus!
