//! Roles, permissions, and sets of permissions.

use vstd::prelude::*;

verus! {

/// A granular capability. The vocabulary is closed.
#[derive(Clone, Copy, Debug, PartialEq, Eq, Hash, Structural)]
pub enum Permission {
    ViewPatient,
    AddPatient,
    EditPatient,
    DeletePatient,
    ViewDoctor,
    AddDoctor,
}

/// The role of a user; it determines the permissions the user starts with.
#[derive(Clone, Copy, Debug, PartialEq, Eq, Structural)]
pub enum Role {
    Admin,
    Doctor,
    Nurse,
}

/// The permissions that a role grants.
pub open spec fn role_grants(role: Role) -> Set<Permission> {
    match role {
        Role::Admin => set![
            Permission::ViewPatient,
            Permission::AddPatient,
            Permission::EditPatient,
            Permission::DeletePatient,
            Permission::ViewDoctor,
            Permission::AddDoctor,
        ],
        Role::Doctor => set![
            Permission::ViewPatient,
            Permission::AddPatient,
            Permission::EditPatient,
            Permission::ViewDoctor,
        ],
        Role::Nurse => set![Permission::ViewPatient],
    }
}

/// A set of permissions, one flag for each member of the vocabulary.
#[derive(Clone, Copy, Debug, PartialEq, Eq, Structural)]
pub struct PermissionSet {
    view_patient: bool,
    add_patient: bool,
    edit_patient: bool,
    delete_patient: bool,
    view_doctor: bool,
    add_doctor: bool,
}

impl PermissionSet {
    /// Whether the flag that stands for `p` is set.
    pub closed spec fn holds(self, p: Permission) -> bool {
        match p {
            Permission::ViewPatient => self.view_patient,
            Permission::AddPatient => self.add_patient,
            Permission::EditPatient => self.edit_patient,
            Permission::DeletePatient => self.delete_patient,
            Permission::ViewDoctor => self.view_doctor,
            Permission::AddDoctor => self.add_doctor,
        }
    }
}

impl View for PermissionSet {
    type V = Set<Permission>;

    closed spec fn view(&self) -> Set<Permission> {
        Set::new(|p: Permission| self.holds(p))
    }
}

/// Appends `p` to `members` where `present` says so.
fn push_member(members: &mut Vec<Permission>, present: bool, p: Permission)
    requires
        !old(members)@.to_set().contains(p),
        old(members)@.no_duplicates(),
    ensures
        final(members)@.no_duplicates(),
        final(members)@.to_set() == if present {
            old(members)@.to_set().insert(p)
        } else {
            old(members)@.to_set()
        },
{
    if present {
        proof {
            members@.lemma_push_to_set_commute(p);
            assert(!members@.contains(p));
        }
        members.push(p);
    }
}

impl PermissionSet {
    /// The empty set.
    pub fn new() -> (s: Self)
        ensures
            s@ == Set::<Permission>::empty(),
    {
        let s = PermissionSet {
            view_patient: false,
            add_patient: false,
            edit_patient: false,
            delete_patient: false,
            view_doctor: false,
            add_doctor: false,
        };
        assert(s@ =~= Set::<Permission>::empty());
        s
    }

    /// Membership test.
    pub fn contains(&self, p: Permission) -> (b: bool)
        ensures
            b == self@.contains(p),
    {
        match p {
            Permission::ViewPatient => self.view_patient,
            Permission::AddPatient => self.add_patient,
            Permission::EditPatient => self.edit_patient,
            Permission::DeletePatient => self.delete_patient,
            Permission::ViewDoctor => self.view_doctor,
            Permission::AddDoctor => self.add_doctor,
        }
    }

    /// Adds `p`; returns whether it was absent before.
    pub fn insert(&mut self, p: Permission) -> (added: bool)
        ensures
            final(self)@ == old(self)@.insert(p),
            added == !old(self)@.contains(p),
    {
        let was = self.contains(p);
        match p {
            Permission::ViewPatient => { self.view_patient = true; },
            Permission::AddPatient => { self.add_patient = true; },
            Permission::EditPatient => { self.edit_patient = true; },
            Permission::DeletePatient => { self.delete_patient = true; },
            Permission::ViewDoctor => { self.view_doctor = true; },
            Permission::AddDoctor => { self.add_doctor = true; },
        }
        assert(self@ =~= old(self)@.insert(p));
        !was
    }

    /// Adds every member of `other`; nothing is taken away.
    pub fn extend(&mut self, other: &PermissionSet)
        ensures
            final(self)@ == old(self)@.union(other@),
    {
        self.view_patient = self.view_patient || other.view_patient;
        self.add_patient = self.add_patient || other.add_patient;
        self.edit_patient = self.edit_patient || other.edit_patient;
        self.delete_patient = self.delete_patient || other.delete_patient;
        self.view_doctor = self.view_doctor || other.view_doctor;
        self.add_doctor = self.add_doctor || other.add_doctor;
        assert(self@ =~= old(self)@.union(other@));
    }

    /// Empties the set.
    pub fn clear(&mut self)
        ensures
            final(self)@ == Set::<Permission>::empty(),
    {
        *self = PermissionSet::new();
    }

    /// The permissions that `role` grants.
    pub fn for_role(role: Role) -> (s: Self)
        ensures
            s@ == role_grants(role),
    {
        let mut s = PermissionSet::new();
        match role {
            Role::Admin => {
                s.insert(Permission::ViewPatient);
                s.insert(Permission::AddPatient);
                s.insert(Permission::EditPatient);
                s.insert(Permission::DeletePatient);
                s.insert(Permission::ViewDoctor);
                s.insert(Permission::AddDoctor);
            },
            Role::Doctor => {
                s.insert(Permission::ViewPatient);
                s.insert(Permission::AddPatient);
                s.insert(Permission::EditPatient);
                s.insert(Permission::ViewDoctor);
            },
            Role::Nurse => {
                s.insert(Permission::ViewPatient);
            },
        }
        assert(s@ =~= role_grants(role));
        s
    }

    /// The set that holds exactly the members of `items`.
    pub fn from_slice(items: &[Permission]) -> (s: Self)
        ensures
            s@ == items@.to_set(),
    {
        let mut s = PermissionSet::new();
        let mut i: usize = 0;
        while i < items.len()
            invariant
                i <= items.len(),
                s@ == items@.take(i as int).to_set(),
            decreases items.len() - i,
        {
            s.insert(items[i]);
            proof {
                assert(items@.take(i + 1) =~= items@.take(i as int).push(items@[i as int]));
                items@.take(i as int).lemma_push_to_set_commute(items@[i as int]);
            }
            i = i + 1;
        }
        assert(items@.take(i as int) =~= items@);
        s
    }

    /// The members, each once, in the order in which the vocabulary declares them.
    pub fn to_vec(&self) -> (members: Vec<Permission>)
        ensures
            members@.to_set() == self@,
            members@.no_duplicates(),
    {
        let mut members: Vec<Permission> = Vec::new();
        assert(members@.to_set() =~= Set::<Permission>::empty());
        push_member(&mut members, self.view_patient, Permission::ViewPatient);
        push_member(&mut members, self.add_patient, Permission::AddPatient);
        push_member(&mut members, self.edit_patient, Permission::EditPatient);
        push_member(&mut members, self.delete_patient, Permission::DeletePatient);
        push_member(&mut members, self.view_doctor, Permission::ViewDoctor);
        push_member(&mut members, self.add_doctor, Permission::AddDoctor);
        assert(members@.to_set() =~= self@);
        members
    }
}

} // verus!
