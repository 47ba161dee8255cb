//! Where messages for a service go.
use crate::ordered_map::{MapKey, OrderedMap};
use crate::protocol::RuntimeError;
use vstd::pervasive::cloned;
use vstd::prelude::*;

verus! {

/// The handles of services by their identities.
pub struct Router<K: MapKey, H: Clone> {
    routes: OrderedMap<K, H>,
}

impl<K: MapKey, H: Clone> View for Router<K, H> {
    type V = Map<K::V, H>;

    closed spec fn view(&self) -> Map<K::V, H> {
        self.routes@
    }
}

impl<K: MapKey, H: Clone> Router<K, H> {
    /// The routes are in order.
    pub closed spec fn wf(&self) -> bool {
        self.routes.wf()
    }

    /// A router without routes.
    pub fn new() -> (router: Self)
        ensures
            router.wf(),
            router@ == Map::<K::V, H>::empty(),
    {
        Router { routes: OrderedMap::new() }
    }

    /// Makes a service reachable. A later handle takes the place of an earlier.
    pub fn register(&mut self, service: K, handle: H)
        requires
            old(self).wf(),
        ensures
            final(self).wf(),
            final(self)@ == old(self)@.insert(service@, handle),
    {
        self.routes.insert(service, handle);
    }

    /// The handle of a service. `name` is what an unknown service is called.
    pub fn route(&self, target: &K, name: &str) -> (result: Result<H, RuntimeError>)
        requires
            self.wf(),
        ensures
            match result {
                Ok(handle) => self@.contains_key(target@) && cloned(self@[target@], handle),
                Err(error) => !self@.contains_key(target@) && (error
                    matches RuntimeError::ServiceNotFound(missing) && missing@ == name@),
            },
    {
        match self.routes.get(target) {
            Some(handle) => Ok(handle.clone()),
            None => Err(RuntimeError::ServiceNotFound(name.to_owned())),
        }
    }
}

/// A message is routed to the handle that was registered last for its service,
/// and a service is found exactly if one was; registering a service leaves the
/// routes of all others.
pub proof fn law_last_registration_counts<K: MapKey, H: Clone>(
    before: &mut Router<K, H>,
    service: K,
    handle: H,
    registered: (),
    after: Router<K, H>,
    target: &K,
    name: &str,
    result: Result<H, RuntimeError>,
)
    requires
        call_ensures(Router::<K, H>::register, (before, service, handle), registered),
        after == *final(before),
        call_ensures(Router::<K, H>::route, (&after, target, name), result),
    ensures
        target@ == service@ ==> (result matches Ok(found) && cloned(handle, found)),
        target@ != service@ ==> (result is Ok <==> old(before)@.contains_key(target@)),
        target@ != service@ ==> (result matches Ok(found) ==> cloned(
            old(before)@[target@],
            found,
        )),
        result matches Err(error) ==> (error matches RuntimeError::ServiceNotFound(missing)
            && missing@ == name@),
{
}

} // verus!
