//! The service registry of the distributed example, and its request
//! handler.
use vstd::prelude::*;
use crate::logs_chart_widget::instant_now;
use crate::text::{chars_eq, chars_of, push_decimal, push_str_chars, decimal};

verus! {

/// The health of a registered service.
#[derive(Debug, Clone, Copy, PartialEq, Eq, Structural)]
pub enum ServiceStatus {
    Healthy,
    Degraded,
    Unhealthy,
    Down,
}

/// What the registry knows of a service.
#[derive(Debug)]
pub struct ServiceInfo {
    pub id: String,
    pub status: ServiceStatus,
    pub last_heartbeat: std::time::Instant,
    pub request_count: u64,
    pub error_count: u64,
}

/// The position of the service with the given id.
pub open spec fn index_of(services: Seq<ServiceInfo>, id: Seq<char>) -> Option<int> {
    if exists|i: int| 0 <= i < services.len() && #[trigger] services[i].id@ == id {
        Some(choose|i: int| 0 <= i < services.len() && #[trigger] services[i].id@ == id)
    } else {
        None
    }
}

proof fn lemma_index_of(services: Seq<ServiceInfo>, id: Seq<char>)
    ensures
        index_of(services, id) matches Some(i) ==> 0 <= i < services.len() && services[i].id@ == id,
        index_of(services, id) is None ==> forall|j: int| 0 <= j < services.len() ==> services[j].id@ != id,
{
}

/// A service entry just registered under `id`: healthy, no requests, no
/// errors.
pub open spec fn is_fresh(s: ServiceInfo, id: Seq<char>) -> bool {
    &&& s.id@ == id
    &&& s.status == ServiceStatus::Healthy
    &&& s.request_count == 0
    &&& s.error_count == 0
}

/// The services, at most one per id.
pub struct ServiceRegistry {
    pub services: Vec<ServiceInfo>,
}

impl ServiceRegistry {
    /// No two services share an id.
    pub open spec fn wf(&self) -> bool {
        forall|i: int, j: int|
            0 <= i < j < self.services@.len() ==> #[trigger] self.services@[i].id@ != #[trigger] self.services@[j].id@
    }

    /// An empty registry.
    pub fn new() -> (r: Self)
        ensures
            r.wf(),
            r.services@.len() == 0,
    {
        ServiceRegistry { services: Vec::new() }
    }

    fn position(&self, id: &str) -> (r: Option<usize>)
        requires
            self.wf(),
        ensures
            r matches Some(i) ==> index_of(self.services@, id@) == Some(i as int),
            r is None ==> index_of(self.services@, id@) is None,
    {
        let key = chars_of(id);
        for i in 0..self.services.len()
            invariant
                key@ == id@,
                self.wf(),
                forall|j: int| 0 <= j < i ==> #[trigger] self.services@[j].id@ != id@,
        {
            if chars_eq(&chars_of(self.services[i].id.as_str()), &key) {
                proof {
                    let k = choose|k: int| 0 <= k < self.services@.len() && #[trigger] self.services@[k].id@ == id@;
                    if k != i {
                        if k < i {
                            assert(self.services@[k].id@ != self.services@[i as int].id@);
                        } else {
                            assert(self.services@[i as int].id@ != self.services@[k].id@);
                        }
                    }
                }
                return Some(i);
            }
        }
        None
    }

    /// Registers a service under `id`, healthy and with no requests or
    /// errors yet; an earlier entry with that id is replaced.
    pub fn register_service(&mut self, id: String)
        requires
            old(self).wf(),
        ensures
            final(self).wf(),
            match index_of(old(self).services@, id@) {
                Some(i) => {
                    &&& final(self).services@.len() == old(self).services@.len()
                    &&& is_fresh(final(self).services@[i], id@)
                    &&& forall|j: int|
                        0 <= j < old(self).services@.len() && j != i ==> #[trigger] final(self).services@[j]
                            == old(self).services@[j]
                },
                None => {
                    &&& final(self).services@.len() == old(self).services@.len() + 1
                    &&& final(self).services@.drop_last() == old(self).services@
                    &&& is_fresh(final(self).services@.last(), id@)
                },
            },
    {
        let ghost id_view = id@;
        let key = id.as_str();
        assert(key@ == id@);
        let pos = self.position(key);
        let entry = ServiceInfo {
            id,
            status: ServiceStatus::Healthy,
            last_heartbeat: instant_now(),
            request_count: 0,
            error_count: 0,
        };
        match pos {
            Some(i) => {
                let ghost before = self.services@;
                proof {
                    lemma_index_of(before, id_view);
                    assert(before[i as int].id@ == entry.id@);
                }
                self.services.set(i, entry);
                proof {
                    assert forall|a: int, b: int|
                        0 <= a < b < self.services@.len() implies #[trigger] self.services@[a].id@
                        != #[trigger] self.services@[b].id@ by {
                        if a != i && b != i {
                            assert(before[a].id@ != before[b].id@);
                        } else if a == i {
                            assert(before[b].id@ != before[a].id@) by {
                                if before[b].id@ == before[a].id@ {
                                    assert(before[b].id@ == self.services@[a].id@);
                                }
                            }
                        }
                    }
                }
            },
            None => {
                let ghost before = self.services@;
                self.services.push(entry);
                assert(self.services@.drop_last() =~= before);
            },
        }
    }
}

} // verus!

verus! {

impl ServiceRegistry {
    /// The services after a heartbeat of `id` seen at `at`: that service's
    /// heartbeat time becomes `at`; an unknown id changes nothing.
    pub open spec fn with_heartbeat(services: Seq<ServiceInfo>, id: Seq<char>, at: std::time::Instant) -> Seq<ServiceInfo> {
        match index_of(services, id) {
            Some(i) => services.update(
                i,
                ServiceInfo {
                    id: services[i].id,
                    status: services[i].status,
                    last_heartbeat: at,
                    request_count: services[i].request_count,
                    error_count: services[i].error_count,
                },
            ),
            None => services,
        }
    }

    /// Records a heartbeat of the service `service_id` seen at `at` (see
    /// `with_heartbeat`).
    pub fn record_heartbeat(&mut self, service_id: &str, at: std::time::Instant)
        requires
            old(self).wf(),
        ensures
            final(self).wf(),
            final(self).services@ == Self::with_heartbeat(old(self).services@, service_id@, at),
    {
        proof {
            lemma_index_of(self.services@, service_id@);
        }
        let pos = self.position(service_id);
        if let Some(i) = pos {
            let ghost before = self.services@;
            let entry = ServiceInfo {
                id: self.services[i].id.clone(),
                status: self.services[i].status,
                last_heartbeat: at,
                request_count: self.services[i].request_count,
                error_count: self.services[i].error_count,
            };
            self.services.set(i, entry);
            proof {
                assert forall|a: int, b: int|
                    0 <= a < b < self.services@.len() implies #[trigger] self.services@[a].id@
                    != #[trigger] self.services@[b].id@ by {
                    assert(self.services@[a].id@ == before[a].id@);
                    assert(self.services@[b].id@ == before[b].id@);
                }
                assert(self.services@ =~= Self::with_heartbeat(before, service_id@, at));
            }
        }
    }

    /// Records a heartbeat of the service `service_id` at the current clock
    /// reading (see `record_heartbeat`); which instant the clock gives is not
    /// stated.
    pub fn update_heartbeat(&mut self, service_id: &str)
        requires
            old(self).wf(),
        ensures
            final(self).wf(),
            exists|at: std::time::Instant|
                final(self).services@ == #[trigger] Self::with_heartbeat(old(self).services@, service_id@, at),
    {
        let now = instant_now();
        self.record_heartbeat(service_id, now);
    }
}

} // verus!

verus! {

/// The reply to a user request: user 0 is refused, any other user's data
/// is processed.
pub fn process_user_request(user_id: u32) -> (r: Result<String, &'static str>)
    ensures
        user_id == 0 ==> (r matches Err(e) && e@ == "Invalid user ID"@),
        user_id != 0 ==> (r matches Ok(s) && s@ == "User "@ + decimal(user_id as nat) + " data processed"@),
{
    if user_id == 0 {
        Err("Invalid user ID")
    } else {
        let mut s = String::new();
        push_str_chars(&mut s, "User ");
        push_decimal(&mut s, user_id as u64);
        push_str_chars(&mut s, " data processed");
        Ok(s)
    }
}

} // verus!

verus! {

/// The logging settings of the example service.
#[derive(Debug, Clone)]
pub struct AppConfig {
    pub log_buffer_size: usize,
    pub log_channel_size: usize,
    pub service_name: String,
}

impl Default for AppConfig {
    /// The last 10 000 events kept, 5 000 queued, for `my_app`.
    fn default() -> (r: Self)
        ensures
            r.log_buffer_size == 10_000,
            r.log_channel_size == 5_000,
            r.service_name@ == "my_app"@,
    {
        AppConfig { log_buffer_size: 10_000, log_channel_size: 5_000, service_name: String::from_str("my_app") }
    }
}

} // verus!
