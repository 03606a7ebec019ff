use vstd::prelude::*;

verus! {

/// A key-value store, for users of the library to implement; its model is
/// the map of stored entries, and each operation says how it changes that
/// map.
pub trait Storage<K, V>: Sized {
    /// The stored entries.
    spec fn entries(&self) -> Map<K, V>;

    fn set(&mut self, key: K, val: V)
        ensures
            final(self).entries() == old(self).entries().insert(key, val),
    ;

    fn get(&self, key: &K) -> (r: Option<&V>)
        ensures
            self.entries().dom().contains(*key) ==> (r matches Some(v) && *v
                == self.entries()[*key]),
            !self.entries().dom().contains(*key) ==> r is None,
    ;

    fn remove(&mut self, key: &K) -> (r: Option<V>)
        ensures
            final(self).entries() == old(self).entries().remove(*key),
            old(self).entries().dom().contains(*key) ==> (r matches Some(v) && v == old(
                self,
            ).entries()[*key]),
            !old(self).entries().dom().contains(*key) ==> r is None,
    ;
}

/// An account as the repositories store it.
#[derive(Debug, Clone, PartialEq)]
pub struct User {
    pub id: u64,
    pub email: String,
    pub activated: bool,
}

/// A user repository over any storage, dispatched statically.
pub struct UserRepositoryStatic<T: Storage<u64, User>> {
    pub storage: T,
}

impl<T: Storage<u64, User>> UserRepositoryStatic<T> {
    pub fn new(storage: T) -> (r: UserRepositoryStatic<T>)
        ensures
            r.storage.entries() == storage.entries(),
    {
        UserRepositoryStatic { storage }
    }

    /// Stores the user under its id.
    pub fn add_user(&mut self, user: User)
        ensures
            final(self).storage.entries() == old(self).storage.entries().insert(user.id, user),
    {
        self.storage.set(user.id, user)
    }

    /// The user stored under the id, if any.
    pub fn get_user(&self, id: &u64) -> (r: Option<&User>)
        ensures
            self.storage.entries().dom().contains(*id) ==> (r matches Some(u) && *u
                == self.storage.entries()[*id]),
            !self.storage.entries().dom().contains(*id) ==> r is None,
    {
        self.storage.get(id)
    }

    /// Replaces the user stored under its id.
    pub fn update_user(&mut self, user: User)
        ensures
            final(self).storage.entries() == old(self).storage.entries().insert(user.id, user),
    {
        self.storage.set(user.id, user);
    }

    /// Drops the user stored under the id.
    pub fn remove_user(&mut self, id: &u64)
        ensures
            final(self).storage.entries() == old(self).storage.entries().remove(*id),
    {
        self.storage.remove(id);
    }
}

/// What a user-facing command calls itself.
pub trait Command {
    fn command_name(&self) -> &str;
}

/// The command that asks for a user to be created.
pub struct CreateUser {
    pub user: User,
}

impl Command for CreateUser {
    fn command_name(&self) -> (name: &str)
        ensures
            name@ == "CreateUser"@,
    {
        "CreateUser"
    }
}

/// Everything user handling can report.
#[derive(Debug)]
pub enum UserError {
    AlreadyExists,
    RepositoryError,
}

} // verus!
