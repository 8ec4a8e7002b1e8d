//! Clients of a service that runs as several instances.

use vstd::prelude::*;

verus! {

/// Why a service could not be used.
#[derive(Debug)]
pub enum Error {
    /// There is no client for the key.
    MissingClient(String),
}

/// The clients of the instances of one service.
#[derive(Clone, Debug)]
pub struct ShardedClient<T: Clone> {
    name: String,
    clients: Vec<T>,
}

impl<T: Clone> ShardedClient<T> {
    /// The name of the service.
    pub closed spec fn spec_name(&self) -> Seq<char> {
        self.name@
    }

    /// The clients, in the order of the instances.
    pub closed spec fn spec_clients(&self) -> Seq<T> {
        self.clients@
    }

    /// The clients of the service `name`, one for each instance.
    pub fn new(name: String, clients: Vec<T>) -> (sharded: Self)
        ensures
            sharded.spec_name() == name@,
            sharded.spec_clients() == clients@,
    {
        ShardedClient { name, clients }
    }

    /// The name of the service.
    pub fn name(&self) -> (name: &str)
        ensures
            name@ == self.spec_name(),
    {
        self.name.as_str()
    }

    /// The client for `key`: the first one, whatever the key. Fails where
    /// there is no client at all.
    pub fn borrow(&self, key: &str) -> (result: Result<&T, Error>)
        ensures
            match result {
                Ok(client) => self.spec_clients().len() > 0 && *client == self.spec_clients()[0],
                Err(error) => {
                    &&& self.spec_clients().len() == 0
                    &&& error matches Error::MissingClient(k) && k@ == key@
                },
            },
    {
        if self.clients.len() > 0 {
            Ok(&self.clients[0])
        } else {
            Err(Error::MissingClient(String::from_str(key)))
        }
    }

    /// The client for `key`, to be changed: the first one, whatever the
    /// key. Fails, and changes nothing, where there is no client at all.
    pub fn borrow_mut(&mut self, key: &str) -> (result: Result<&mut T, Error>)
        ensures
            final(self).spec_name() == old(self).spec_name(),
            match result {
                Ok(client) => {
                    &&& old(self).spec_clients().len() > 0
                    &&& *client == old(self).spec_clients()[0]
                    &&& final(self).spec_clients() == old(self).spec_clients().update(
                        0,
                        *final(client),
                    )
                },
                Err(error) => {
                    &&& old(self).spec_clients().len() == 0
                    &&& final(self).spec_clients() == old(self).spec_clients()
                    &&& error matches Error::MissingClient(k) && k@ == key@
                },
            },
    {
        if self.clients.len() > 0 {
            Ok(&mut self.clients[0])
        } else {
            Err(Error::MissingClient(String::from_str(key)))
        }
    }
}

} // verus!
