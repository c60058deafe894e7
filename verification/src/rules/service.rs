//! Services: named groups of backend addresses.
use vstd::prelude::*;

use std::sync::atomic::AtomicUsize;

verus! {

/// A single Service that can receive Requests.
#[derive(Debug)]
pub struct Service {
    name: String,
    addresses: Vec<String>,
    current: AtomicUsize,
}

impl PartialEq for Service {
    fn eq(&self, other: &Self) -> (res: bool) {
        self.name == other.name
    }
}

impl vstd::std_specs::cmp::PartialEqSpecImpl for Service {
    open spec fn obeys_eq_spec() -> bool {
        true
    }

    open spec fn eq_spec(&self, other: &Self) -> bool {
        self.spec_name() == other.spec_name()
    }
}

impl Service {
    /// The name of the service.
    pub closed spec fn spec_name(&self) -> Seq<char> {
        self.name@
    }

    /// The addresses of the service, each by its characters.
    pub closed spec fn spec_addresses(&self) -> Seq<Seq<char>> {
        self.addresses@.map_values(|a: String| a@)
    }

    /// Creates a New Service instance with the given Name and Destinations.
    pub fn new(name: &str, destinations: Vec<String>) -> (res: Self)
        ensures
            res.spec_name() == name@,
            res.spec_addresses() == destinations@.map_values(|a: String| a@),
    {
        Self { name: name.to_owned(), addresses: destinations, current: AtomicUsize::new(0) }
    }

    /// Returns the Name.
    pub fn name(&self) -> (res: &str)
        ensures
            res@ == self.spec_name(),
    {
        self.name.as_str()
    }

    /// Returns all addresses associated with the Service.
    pub fn addresses(&self) -> (res: &[String])
        ensures
            res@.map_values(|a: String| a@) == self.spec_addresses(),
    {
        self.addresses.as_slice()
    }

    /// Gets the next Address to be used for a request.
    ///
    /// The service keeps a counter shared by all its users; the address at
    /// the counter's value modulo the number of addresses is returned and the
    /// counter advances by one.
    pub fn round_robin(&self) -> (res: Option<&str>)
        ensures
            res is None <==> self.spec_addresses().len() == 0,
            res matches Some(a) ==> self.spec_addresses().contains(a@),
    {
        let length = self.addresses.len();
        if length == 0 {
            return None;
        }
        let counter = self.current.load(std::sync::atomic::Ordering::Relaxed);
        self.current.fetch_add(1, std::sync::atomic::Ordering::Relaxed);
        Some(self.address_at(counter))
    }

    /// The address that `round_robin` hands out when the shared counter
    /// reads `counter`: the one at `counter` modulo the number of addresses.
    pub fn address_at(&self, counter: usize) -> (res: &str)
        requires
            self.spec_addresses().len() > 0,
        ensures
            res@ == self.spec_addresses()[(counter as int) % (self.spec_addresses().len() as int)],
            self.spec_addresses().contains(res@),
    {
        let index = counter % self.addresses.len();
        let address = self.addresses[index].as_str();
        assert(self.spec_addresses()[index as int] == address@);
        address
    }
}

} // verus!
