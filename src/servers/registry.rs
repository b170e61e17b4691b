use std::collections::HashSet;
use vstd::prelude::*;

use crate::servers::models::{Protocol, Service};
use crate::text::str_eq;
use vstd::string::*;

verus! {

broadcast use vstd::std_specs::hash::group_hash_axioms;

/// A registered server and its services.
pub struct Server {
    pub id: u128,
    pub name: String,
    pub description: Option<String>,
    pub services: Vec<Service>,
}

/// A company and its servers.
pub struct Company {
    pub id: u128,
    pub name: String,
    pub servers: Vec<Server>,
}

/// The services of a list of servers, in order.
pub open spec fn server_services(ss: Seq<Server>) -> Seq<Service>
    decreases ss.len(),
{
    if ss.len() == 0 {
        seq![]
    } else {
        server_services(ss.drop_last()) + ss.last().services@
    }
}

/// The services of a list of companies, in order.
pub open spec fn all_services(cs: Seq<Company>) -> Seq<Service>
    decreases cs.len(),
{
    if cs.len() == 0 {
        seq![]
    } else {
        all_services(cs.drop_last()) + server_services(cs.last().servers@)
    }
}

/// The first service of the list with the id.
pub open spec fn first_with_id(s: Seq<Service>, id: u128) -> Option<Service>
    decreases s.len(),
{
    if s.len() == 0 {
        None
    } else if s[0].id == id {
        Some(s[0])
    } else {
        first_with_id(s.subrange(1, s.len() as int), id)
    }
}

/// No service of the list has the id.
pub open spec fn lacks_id(s: Seq<Service>, id: u128) -> bool {
    forall|j: int| 0 <= j < s.len() ==> (#[trigger] s[j]).id != id
}

proof fn lemma_first_after(a: Seq<Service>, b: Seq<Service>, id: u128)
    requires
        lacks_id(a, id),
    ensures
        first_with_id(a + b, id) == first_with_id(b, id),
    decreases a.len(),
{
    if a.len() > 0 {
        let ab = a + b;
        assert(ab[0] == a[0]);
        assert(ab.subrange(1, ab.len() as int) =~= a.subrange(1, a.len() as int) + b);
        lemma_first_after(a.subrange(1, a.len() as int), b, id);
    } else {
        assert(a + b =~= b);
    }
}

proof fn lemma_first_none(s: Seq<Service>, id: u128)
    requires
        lacks_id(s, id),
    ensures
        first_with_id(s, id) is None,
{
    lemma_first_after(s, seq![], id);
    assert(s + seq![] =~= s);
}

proof fn lemma_first_found(s: Seq<Service>, rest: Seq<Service>, x: Service, id: u128)
    requires
        lacks_id(s, id),
        x.id == id,
    ensures
        first_with_id(s + seq![x] + rest, id) == Some(x),
{
    assert(s + seq![x] + rest =~= s + (seq![x] + rest));
    lemma_first_after(s, seq![x] + rest, id);
    assert((seq![x] + rest)[0] == x);
}

proof fn lemma_server_services_split(ss: Seq<Server>, j: int)
    requires
        0 <= j < ss.len(),
    ensures
        server_services(ss) == server_services(ss.subrange(0, j)) + ss[j].services@ + server_services(
            ss.subrange(j + 1, ss.len() as int),
        ),
    decreases ss.len(),
{
    if j == ss.len() - 1 {
        assert(ss.drop_last() =~= ss.subrange(0, j));
        assert(ss.subrange(j + 1, ss.len() as int) =~= Seq::<Server>::empty());
        assert(server_services(Seq::<Server>::empty()) =~= Seq::<Service>::empty());
        assert(server_services(ss) =~= server_services(ss.subrange(0, j)) + ss[j].services@
            + server_services(ss.subrange(j + 1, ss.len() as int)));
    } else {
        lemma_server_services_split(ss.drop_last(), j);
        assert(ss.drop_last().subrange(0, j) =~= ss.subrange(0, j));
        let tail = ss.subrange(j + 1, ss.len() as int);
        assert(tail.drop_last() =~= ss.drop_last().subrange(j + 1, ss.len() - 1));
        assert(tail.last() == ss.last());
        assert(server_services(ss) =~= server_services(ss.subrange(0, j)) + ss[j].services@
            + server_services(tail));
    }
}

proof fn lemma_all_services_split(cs: Seq<Company>, i: int)
    requires
        0 <= i < cs.len(),
    ensures
        all_services(cs) == all_services(cs.subrange(0, i)) + server_services(cs[i].servers@)
            + all_services(cs.subrange(i + 1, cs.len() as int)),
    decreases cs.len(),
{
    if i == cs.len() - 1 {
        assert(cs.drop_last() =~= cs.subrange(0, i));
        assert(cs.subrange(i + 1, cs.len() as int) =~= Seq::<Company>::empty());
        assert(all_services(Seq::<Company>::empty()) =~= Seq::<Service>::empty());
        assert(all_services(cs) =~= all_services(cs.subrange(0, i)) + server_services(cs[i].servers@)
            + all_services(cs.subrange(i + 1, cs.len() as int)));
    } else {
        lemma_all_services_split(cs.drop_last(), i);
        assert(cs.drop_last().subrange(0, i) =~= cs.subrange(0, i));
        let tail = cs.subrange(i + 1, cs.len() as int);
        assert(tail.drop_last() =~= cs.drop_last().subrange(i + 1, cs.len() - 1));
        assert(tail.last() == cs.last());
        assert(all_services(cs) =~= all_services(cs.subrange(0, i)) + server_services(cs[i].servers@)
            + all_services(tail));
    }
}

impl Service {
    /// A field-for-field copy.
    pub fn copy(&self) -> (r: Self)
        ensures
            r == *self,
    {
        Service {
            id: self.id,
            protocol: self.protocol,
            port: self.port,
            host: self.host.clone(),
            status: match &self.status {
                Some(s) => Some(s.clone()),
                None => None,
            },
        }
    }
}

/// The first service with the id, companies, servers and services taken in order.
pub fn get_service(data: &Vec<Company>, id: u128) -> (r: Option<Service>)
    ensures
        r == first_with_id(all_services(data@), id),
{
    let mut i: usize = 0;
    while i < data.len()
        invariant
            i <= data@.len(),
            lacks_id(all_services(data@.subrange(0, i as int)), id),
        decreases data@.len() - i,
    {
        let company = &data[i];
        let mut j: usize = 0;
        while j < company.servers.len()
            invariant
                i < data@.len(),
                *company == data@[i as int],
                j <= company.servers@.len(),
                lacks_id(all_services(data@.subrange(0, i as int)), id),
                lacks_id(server_services(company.servers@.subrange(0, j as int)), id),
            decreases company.servers@.len() - j,
        {
            let server = &company.servers[j];
            let mut k: usize = 0;
            while k < server.services.len()
                invariant
                    i < data@.len(),
                    *company == data@[i as int],
                    j < company.servers@.len(),
                    *server == company.servers@[j as int],
                    k <= server.services@.len(),
                    lacks_id(all_services(data@.subrange(0, i as int)), id),
                    lacks_id(server_services(company.servers@.subrange(0, j as int)), id),
                    lacks_id(server.services@.subrange(0, k as int), id),
                decreases server.services@.len() - k,
            {
                if server.services[k].id == id {
                    proof {
                        let before = all_services(data@.subrange(0, i as int)) + server_services(
                            company.servers@.subrange(0, j as int),
                        ) + server.services@.subrange(0, k as int);
                        assert(lacks_id(before, id));
                        let x = server.services@[k as int];
                        let after_in_server = server.services@.subrange(k + 1, server.services@.len() as int);
                        assert(server.services@ =~= server.services@.subrange(0, k as int) + seq![x] + after_in_server);
                        lemma_server_services_split(company.servers@, j as int);
                        lemma_all_services_split(data@, i as int);
                        let rest = after_in_server + server_services(
                            company.servers@.subrange(j + 1, company.servers@.len() as int),
                        ) + all_services(data@.subrange(i + 1, data@.len() as int));
                        assert(all_services(data@) =~= before + seq![x] + rest);
                        lemma_first_found(before, rest, x, id);
                    }
                    return Some(server.services[k].copy());
                }
                proof {
                    assert(server.services@.subrange(0, k + 1) =~= server.services@.subrange(0, k as int).push(server.services@[k as int]));
                }
                k = k + 1;
            }
            proof {
                let s = company.servers@.subrange(0, j + 1);
                assert(s.drop_last() =~= company.servers@.subrange(0, j as int));
                assert(s.last() == company.servers@[j as int]);
                assert(server.services@.subrange(0, k as int) =~= server.services@);
                assert(server_services(s) == server_services(s.drop_last()) + s.last().services@);
            }
            j = j + 1;
        }
        proof {
            let s = data@.subrange(0, i + 1);
            assert(s.drop_last() =~= data@.subrange(0, i as int));
            assert(s.last() == data@[i as int]);
            assert(company.servers@.subrange(0, j as int) =~= company.servers@);
            assert(all_services(s) == all_services(s.drop_last()) + server_services(s.last().servers@));
        }
        i = i + 1;
    }
    proof {
        assert(data@.subrange(0, i as int) =~= data@);
        lemma_first_none(all_services(data@), id);
    }
    None
}

/// The companies shown expanded, by id.
pub struct ExpandedCompanies {
    ids: HashSet<u128>,
}

/// The ids of the listed companies that are in `set`, in list order.
pub open spec fn expanded_ids(cs: Seq<Company>, set: Set<u128>) -> Seq<u128>
    decreases cs.len(),
{
    if cs.len() == 0 {
        seq![]
    } else {
        expanded_ids(cs.drop_last(), set) + if set.contains(cs.last().id) {
            seq![cs.last().id]
        } else {
            seq![]
        }
    }
}

impl ExpandedCompanies {
    pub closed spec fn view(&self) -> Set<u128> {
        self.ids@
    }

    /// Starts with the saved ids.
    pub fn new(saved: &Vec<u128>) -> (r: Self)
        ensures
            r@ == saved@.to_set(),
    {
        let mut ids: HashSet<u128> = HashSet::new();
        let mut i: usize = 0;
        while i < saved.len()
            invariant
                i <= saved@.len(),
                ids@ == saved@.subrange(0, i as int).to_set(),
            decreases saved@.len() - i,
        {
            ids.insert(saved[i]);
            proof {
                let s = saved@.subrange(0, i + 1);
                assert(s =~= saved@.subrange(0, i as int).push(saved@[i as int]));
                saved@.subrange(0, i as int).lemma_push_to_set_commute(saved@[i as int]);
            }
            i = i + 1;
        }
        assert(saved@.subrange(0, i as int) =~= saved@);
        ExpandedCompanies { ids }
    }

    /// Flips whether company `id` is shown expanded; the result says that
    /// the set changed, which it always does.
    pub fn toggle_company_expansion(&mut self, id: u128) -> (r: bool)
        ensures
            r,
            old(self)@.contains(id) ==> final(self)@ == old(self)@.remove(id),
            !old(self)@.contains(id) ==> final(self)@ == old(self)@.insert(id),
    {
        if self.ids.contains(&id) {
            self.ids.remove(&id)
        } else {
            self.ids.insert(id)
        }
    }

    /// The expanded companies among `data`, in its order.
    pub fn list_expanded_companies(&self, data: &Vec<Company>) -> (r: Vec<u128>)
        ensures
            r@ == expanded_ids(data@, self@),
    {
        let mut out: Vec<u128> = Vec::new();
        let mut i: usize = 0;
        while i < data.len()
            invariant
                i <= data@.len(),
                out@ == expanded_ids(data@.subrange(0, i as int), self@),
            decreases data@.len() - i,
        {
            proof {
                let s = data@.subrange(0, i + 1);
                assert(s.drop_last() =~= data@.subrange(0, i as int));
                assert(s.last() == data@[i as int]);
            }
            if self.ids.contains(&data[i].id) {
                out.push(data[i].id);
            }
            assert(out@ =~= expanded_ids(data@.subrange(0, i + 1), self@));
            i = i + 1;
        }
        assert(data@.subrange(0, i as int) =~= data@);
        out
    }
}

/// A server as plain values.
pub struct ServerView {
    pub id: u128,
    pub name: Seq<char>,
    pub description: Option<Seq<char>>,
    pub services: Seq<Service>,
}

/// A company as plain values.
pub struct CompanyView {
    pub id: u128,
    pub name: Seq<char>,
    pub servers: Seq<ServerView>,
}

pub open spec fn opt_view(o: Option<String>) -> Option<Seq<char>> {
    match o {
        Some(s) => Some(s@),
        None => None,
    }
}

impl Server {
    pub open spec fn view(&self) -> ServerView {
        ServerView {
            id: self.id,
            name: self.name@,
            description: opt_view(self.description),
            services: self.services@,
        }
    }

    /// A field-for-field copy without the service `service_id`.
    fn copy_without(&self, service_id: u128) -> (r: Server)
        ensures
            r@ == (ServerView {
                services: self.services@.filter(|s: Service| s.id != service_id),
                ..self@
            }),
    {
        let mut services: Vec<Service> = Vec::new();
        let mut k: usize = 0;
        while k < self.services.len()
            invariant
                k <= self.services@.len(),
                services@ == self.services@.subrange(0, k as int).filter(|s: Service| s.id != service_id),
            decreases self.services@.len() - k,
        {
            proof {
                let t = self.services@.subrange(0, k + 1);
                assert(t.drop_last() =~= self.services@.subrange(0, k as int));
                assert(t.last() == self.services@[k as int]);
                reveal(Seq::filter);
            }
            if self.services[k].id != service_id {
                services.push(self.services[k].copy());
            }
            k = k + 1;
        }
        assert(self.services@.subrange(0, k as int) =~= self.services@);
        Server {
            id: self.id,
            name: self.name.clone(),
            description: match &self.description {
                Some(d) => Some(d.clone()),
                None => None,
            },
            services,
        }
    }
}

impl Company {
    pub open spec fn view(&self) -> CompanyView {
        CompanyView {
            id: self.id,
            name: self.name@,
            servers: self.servers@.map_values(|s: Server| s@),
        }
    }
}

/// The views of a list of companies.
pub open spec fn data_view(cs: Seq<Company>) -> Seq<CompanyView> {
    cs.map_values(|c: Company| c@)
}

/// The company that holds servers added by hand.
pub const LOCAL_SERVERS_NAME: &'static str = "Local Servers";

/// Adds `server` to the first company named `Local Servers`; where there is
/// none, adds that company, under `company_id`, holding the server alone.
pub fn add_server(data: &mut Vec<Company>, server: Server, company_id: u128)
    ensures
        ({
            let before = data_view(old(data)@);
            let after = data_view(final(data)@);
            if exists|i: int| 0 <= i < before.len() && #[trigger] before[i].name == LOCAL_SERVERS_NAME@ {
                let i = choose|i: int|
                    0 <= i < before.len() && #[trigger] before[i].name == LOCAL_SERVERS_NAME@ && forall|j: int|
                        0 <= j < i ==> #[trigger] before[j].name != LOCAL_SERVERS_NAME@;
                after == before.update(
                    i,
                    CompanyView { servers: before[i].servers.push(server@), ..before[i] },
                )
            } else {
                after == before.push(
                    CompanyView { id: company_id, name: LOCAL_SERVERS_NAME@, servers: seq![server@] },
                )
            }
        }),
{
    let ghost before = data_view(data@);
    let mut i: usize = 0;
    while i < data.len()
        invariant
            i <= data@.len(),
            data@ == old(data)@,
            before == data_view(data@),
            forall|j: int| 0 <= j < i ==> #[trigger] before[j].name != LOCAL_SERVERS_NAME@,
        decreases data@.len() - i,
    {
        if str_eq(data[i].name.as_str(), LOCAL_SERVERS_NAME) {
            let mut company = data.remove(i);
            let ghost sv = server@;
            company.servers.push(server);
            data.insert(i, company);
            proof {
                assert(before[i as int].name == LOCAL_SERVERS_NAME@);
                let k = choose|k: int|
                    0 <= k < before.len() && #[trigger] before[k].name == LOCAL_SERVERS_NAME@ && forall|j: int|
                        0 <= j < k ==> #[trigger] before[j].name != LOCAL_SERVERS_NAME@;
                if k < i {
                } else if k > i {
                    assert(before[i as int].name != LOCAL_SERVERS_NAME@);
                }
                assert(k == i);
                assert(company@.servers =~= before[i as int].servers.push(sv));
                assert(data_view(data@) =~= before.update(
                    i as int,
                    CompanyView { servers: before[i as int].servers.push(sv), ..before[i as int] },
                ));
            }
            return;
        }
        i = i + 1;
    }
    let ghost sv = server@;
    let company = Company {
        id: company_id,
        name: String::from_str(LOCAL_SERVERS_NAME),
        servers: vec![server],
    };
    data.push(company);
    proof {
        assert(company@.servers =~= seq![sv]);
        assert(data_view(data@) =~= before.push(
            CompanyView { id: company_id, name: LOCAL_SERVERS_NAME@, servers: seq![sv] },
        ));
    }
}

/// A server without the service `service_id`.
pub open spec fn strip_server(sv: ServerView, service_id: u128) -> ServerView {
    ServerView { services: sv.services.filter(|s: Service| s.id != service_id), ..sv }
}

/// A company whose servers are without the service `service_id`.
pub open spec fn strip_company(c: CompanyView, service_id: u128) -> CompanyView {
    CompanyView { servers: c.servers.map_values(|sv: ServerView| strip_server(sv, service_id)), ..c }
}

/// Every server without the service `service_id`.
pub open spec fn without_service(cs: Seq<CompanyView>, service_id: u128) -> Seq<CompanyView> {
    cs.map_values(|c: CompanyView| strip_company(c, service_id))
}

/// Removes the service `service_id` from every server.
pub fn delete_service(data: &mut Vec<Company>, service_id: u128)
    ensures
        data_view(final(data)@) == without_service(data_view(old(data)@), service_id),
{
    let mut out: Vec<Company> = Vec::new();
    let mut i: usize = 0;
    while i < data.len()
        invariant
            i <= data@.len(),
            data@ == old(data)@,
            out@.len() == i,
            forall|k: int| 0 <= k < i ==> (#[trigger] out@[k])@ == strip_company(data@[k]@, service_id),
        decreases data@.len() - i,
    {
        let company = &data[i];
        let mut servers: Vec<Server> = Vec::new();
        let mut j: usize = 0;
        while j < company.servers.len()
            invariant
                i < data@.len(),
                *company == data@[i as int],
                j <= company.servers@.len(),
                servers@.len() == j,
                forall|k: int| 0 <= k < j ==> (#[trigger] servers@[k])@ == strip_server(company.servers@[k]@, service_id),
            decreases company.servers@.len() - j,
        {
            servers.push(company.servers[j].copy_without(service_id));
            j = j + 1;
        }
        let c = Company { id: company.id, name: company.name.clone(), servers };
        assert(c@.servers =~= company@.servers.map_values(|sv: ServerView| strip_server(sv, service_id)));
        out.push(c);
        i = i + 1;
    }
    assert(data_view(out@) =~= without_service(data_view(data@), service_id));
    *data = out;
}

/// The companies without the server `server_id`, and without the companies
/// that are left with no server.
pub open spec fn without_server(cs: Seq<CompanyView>, server_id: u128) -> Seq<CompanyView> {
    cs.map_values(
        |c: CompanyView| CompanyView { servers: c.servers.filter(|sv: ServerView| sv.id != server_id), ..c },
    ).filter(|c: CompanyView| c.servers.len() > 0)
}

impl Server {
    /// A field-for-field copy.
    fn copy(&self) -> (r: Server)
        ensures
            r@ == self@,
    {
        let mut services: Vec<Service> = Vec::new();
        let mut k: usize = 0;
        while k < self.services.len()
            invariant
                k <= self.services@.len(),
                services@ == self.services@.subrange(0, k as int),
            decreases self.services@.len() - k,
        {
            services.push(self.services[k].copy());
            assert(services@ =~= self.services@.subrange(0, k + 1));
            k = k + 1;
        }
        assert(self.services@.subrange(0, k as int) =~= self.services@);
        Server {
            id: self.id,
            name: self.name.clone(),
            description: match &self.description {
                Some(d) => Some(d.clone()),
                None => None,
            },
            services,
        }
    }
}

/// Removes the server `server_id`, and then every company left without servers.
pub fn delete_server(data: &mut Vec<Company>, server_id: u128)
    ensures
        data_view(final(data)@) == without_server(data_view(old(data)@), server_id),
{
    let ghost stripped = data_view(data@).map_values(
        |c: CompanyView| CompanyView { servers: c.servers.filter(|sv: ServerView| sv.id != server_id), ..c },
    );
    let mut out: Vec<Company> = Vec::new();
    let mut i: usize = 0;
    while i < data.len()
        invariant
            i <= data@.len(),
            data@ == old(data)@,
            stripped == data_view(data@).map_values(
                |c: CompanyView| CompanyView { servers: c.servers.filter(|sv: ServerView| sv.id != server_id), ..c },
            ),
            data_view(out@) == stripped.subrange(0, i as int).filter(|c: CompanyView| c.servers.len() > 0),
        decreases data@.len() - i,
    {
        let company = &data[i];
        let mut servers: Vec<Server> = Vec::new();
        let mut j: usize = 0;
        while j < company.servers.len()
            invariant
                i < data@.len(),
                *company == data@[i as int],
                j <= company.servers@.len(),
                servers@.map_values(|s: Server| s@) == company.servers@.subrange(0, j as int).map_values(
                    |s: Server| s@,
                ).filter(|sv: ServerView| sv.id != server_id),
            decreases company.servers@.len() - j,
        {
            proof {
                let t = company.servers@.subrange(0, j + 1).map_values(|s: Server| s@);
                assert(t.drop_last() =~= company.servers@.subrange(0, j as int).map_values(|s: Server| s@));
                assert(t.last() == company.servers@[j as int]@);
                reveal(Seq::filter);
            }
            if company.servers[j].id != server_id {
                let ghost before = servers@;
                servers.push(company.servers[j].copy());
                assert(servers@.map_values(|s: Server| s@) =~= before.map_values(|s: Server| s@).push(
                    company.servers@[j as int]@,
                ));
            }
            j = j + 1;
        }
        assert(company.servers@.subrange(0, j as int) =~= company.servers@);
        proof {
            let t = stripped.subrange(0, i + 1);
            assert(t.drop_last() =~= stripped.subrange(0, i as int));
            assert(t.last() == stripped[i as int]);
            reveal(Seq::filter);
        }
        if servers.len() > 0 {
            let c = Company { id: company.id, name: company.name.clone(), servers };
            let ghost before = out@;
            assert(c@ == stripped[i as int]);
            out.push(c);
            assert(data_view(out@) =~= data_view(before).push(c@));
        }
        i = i + 1;
    }
    assert(stripped.subrange(0, i as int) =~= stripped);
    *data = out;
}

/// The company holds a server `id`.
pub open spec fn has_server(c: CompanyView, id: u128) -> bool {
    exists|j: int| 0 <= j < c.servers.len() && #[trigger] c.servers[j].id == id
}

/// Server `j` of company `i` is the first server `id`, companies and then
/// their servers taken in order.
pub open spec fn first_server_at(cs: Seq<CompanyView>, id: u128, i: int, j: int) -> bool {
    &&& 0 <= i < cs.len()
    &&& 0 <= j < cs[i].servers.len()
    &&& cs[i].servers[j].id == id
    &&& forall|a: int| 0 <= a < i ==> !has_server(#[trigger] cs[a], id)
    &&& forall|b: int| 0 <= b < j ==> (#[trigger] cs[i].servers[b]).id != id
}

/// The position of the first server `id`.
fn find_server(data: &Vec<Company>, id: u128) -> (r: Option<(usize, usize)>)
    ensures
        match r {
            Some((i, j)) => first_server_at(data_view(data@), id, i as int, j as int),
            None => forall|a: int| 0 <= a < data@.len() ==> !has_server(#[trigger] data_view(data@)[a], id),
        },
{
    let ghost v = data_view(data@);
    let mut i: usize = 0;
    while i < data.len()
        invariant
            i <= data@.len(),
            v == data_view(data@),
            forall|a: int| 0 <= a < i ==> !has_server(#[trigger] v[a], id),
        decreases data@.len() - i,
    {
        let mut j: usize = 0;
        while j < data[i].servers.len()
            invariant
                i < data@.len(),
                v == data_view(data@),
                j <= data@[i as int].servers@.len(),
                forall|a: int| 0 <= a < i ==> !has_server(#[trigger] v[a], id),
                forall|b: int| 0 <= b < j ==> (#[trigger] v[i as int].servers[b]).id != id,
            decreases data@[i as int].servers@.len() - j,
        {
            assert(v[i as int].servers.len() == data@[i as int].servers@.len());
            assert(v[i as int].servers[j as int] == data@[i as int].servers@[j as int]@);
            if data[i].servers[j].id == id {
                return Some((i, j));
            }
            j = j + 1;
        }
        assert(v[i as int].servers.len() == data@[i as int].servers@.len());
        assert(!has_server(v[i as int], id));
        i = i + 1;
    }
    None
}

/// Adds `service` to the first server `server_id`; without such a server,
/// nothing changes.
pub fn add_service(data: &mut Vec<Company>, server_id: u128, service: Service)
    ensures
        (forall|a: int| 0 <= a < old(data)@.len() ==> !has_server(#[trigger] data_view(old(data)@)[a], server_id))
            ==> data_view(final(data)@) == data_view(old(data)@),
        forall|i: int, j: int| #[trigger] first_server_at(data_view(old(data)@), server_id, i, j) ==> {
            let before = data_view(old(data)@);
            data_view(final(data)@) == before.update(
                i,
                CompanyView {
                    servers: before[i].servers.update(
                        j,
                        ServerView { services: before[i].servers[j].services.push(service), ..before[i].servers[j] },
                    ),
                    ..before[i]
                },
            )
        },
{
    let ghost before = data_view(data@);
    match find_server(data, server_id) {
        Some((i, j)) => {
            let mut company = data.remove(i);
            let mut server = company.servers.remove(j);
            server.services.push(service);
            company.servers.insert(j, server);
            data.insert(i, company);
            proof {
                assert forall|i2: int, j2: int| #[trigger] first_server_at(before, server_id, i2, j2)
                    implies i2 == i && j2 == j by {
                    if i2 < i {
                        assert(has_server(before[i2], server_id));
                    } else if i2 > i {
                        assert(has_server(before[i as int], server_id));
                    } else if j2 < j {
                    } else if j2 > j {
                        assert(before[i as int].servers[j as int].id == server_id);
                    }
                }
                assert(company@.servers =~= before[i as int].servers.update(
                    j as int,
                    ServerView { services: before[i as int].servers[j as int].services.push(service), ..before[i as int].servers[j as int] },
                ));
                assert(data_view(data@) =~= before.update(
                    i as int,
                    CompanyView {
                        servers: before[i as int].servers.update(
                            j as int,
                            ServerView { services: before[i as int].servers[j as int].services.push(service), ..before[i as int].servers[j as int] },
                        ),
                        ..before[i as int]
                    },
                ));
            }
        },
        None => {},
    }
}

/// Renames the first server `server_id` and sets its description; without
/// such a server, nothing changes.
pub fn update_server(data: &mut Vec<Company>, server_id: u128, name: String, description: Option<String>)
    ensures
        (forall|a: int| 0 <= a < old(data)@.len() ==> !has_server(#[trigger] data_view(old(data)@)[a], server_id))
            ==> data_view(final(data)@) == data_view(old(data)@),
        forall|i: int, j: int| #[trigger] first_server_at(data_view(old(data)@), server_id, i, j) ==> {
            let before = data_view(old(data)@);
            data_view(final(data)@) == before.update(
                i,
                CompanyView {
                    servers: before[i].servers.update(
                        j,
                        ServerView { name: name@, description: opt_view(description), ..before[i].servers[j] },
                    ),
                    ..before[i]
                },
            )
        },
{
    let ghost before = data_view(data@);
    let ghost nv = name@;
    let ghost dv = opt_view(description);
    match find_server(data, server_id) {
        Some((i, j)) => {
            let mut company = data.remove(i);
            let mut server = company.servers.remove(j);
            server.name = name;
            server.description = description;
            company.servers.insert(j, server);
            data.insert(i, company);
            proof {
                assert forall|i2: int, j2: int| #[trigger] first_server_at(before, server_id, i2, j2)
                    implies i2 == i && j2 == j by {
                    if i2 < i {
                        assert(has_server(before[i2], server_id));
                    } else if i2 > i {
                        assert(has_server(before[i as int], server_id));
                    } else if j2 < j {
                    } else if j2 > j {
                        assert(before[i as int].servers[j as int].id == server_id);
                    }
                }
                assert(company@.servers =~= before[i as int].servers.update(
                    j as int,
                    ServerView { name: nv, description: dv, ..before[i as int].servers[j as int] },
                ));
                assert(data_view(data@) =~= before.update(
                    i as int,
                    CompanyView {
                        servers: before[i as int].servers.update(
                            j as int,
                            ServerView { name: nv, description: dv, ..before[i as int].servers[j as int] },
                        ),
                        ..before[i as int]
                    },
                ));
            }
        },
        None => {},
    }
}

/// The server holds a service `id`.
pub open spec fn server_has_service(sv: ServerView, id: u128) -> bool {
    exists|k: int| 0 <= k < sv.services.len() && #[trigger] sv.services[k].id == id
}

/// The company holds a service `id`.
pub open spec fn company_has_service(c: CompanyView, id: u128) -> bool {
    exists|j: int| 0 <= j < c.servers.len() && server_has_service(#[trigger] c.servers[j], id)
}

/// Service `k` of server `j` of company `i` is the first service `id`.
pub open spec fn first_service_at(cs: Seq<CompanyView>, id: u128, i: int, j: int, k: int) -> bool {
    &&& 0 <= i < cs.len()
    &&& 0 <= j < cs[i].servers.len()
    &&& 0 <= k < cs[i].servers[j].services.len()
    &&& cs[i].servers[j].services[k].id == id
    &&& forall|a: int| 0 <= a < i ==> !company_has_service(#[trigger] cs[a], id)
    &&& forall|b: int| 0 <= b < j ==> !server_has_service(#[trigger] cs[i].servers[b], id)
    &&& forall|c: int| 0 <= c < k ==> (#[trigger] cs[i].servers[j].services[c]).id != id
}

/// The position of the first service `id`.
fn find_service(data: &Vec<Company>, id: u128) -> (r: Option<(usize, usize, usize)>)
    ensures
        match r {
            Some((i, j, k)) => first_service_at(data_view(data@), id, i as int, j as int, k as int),
            None => forall|a: int| 0 <= a < data@.len() ==> !company_has_service(#[trigger] data_view(data@)[a], id),
        },
{
    let ghost v = data_view(data@);
    let mut i: usize = 0;
    while i < data.len()
        invariant
            i <= data@.len(),
            v == data_view(data@),
            forall|a: int| 0 <= a < i ==> !company_has_service(#[trigger] v[a], id),
        decreases data@.len() - i,
    {
        let mut j: usize = 0;
        assert(v[i as int].servers.len() == data@[i as int].servers@.len());
        while j < data[i].servers.len()
            invariant
                i < data@.len(),
                v == data_view(data@),
                v[i as int].servers.len() == data@[i as int].servers@.len(),
                j <= data@[i as int].servers@.len(),
                forall|a: int| 0 <= a < i ==> !company_has_service(#[trigger] v[a], id),
                forall|b: int| 0 <= b < j ==> !server_has_service(#[trigger] v[i as int].servers[b], id),
            decreases data@[i as int].servers@.len() - j,
        {
            let mut k: usize = 0;
            assert(v[i as int].servers[j as int] == data@[i as int].servers@[j as int]@);
            while k < data[i].servers[j].services.len()
                invariant
                    i < data@.len(),
                    j < data@[i as int].servers@.len(),
                    v == data_view(data@),
                    v[i as int].servers.len() == data@[i as int].servers@.len(),
                    v[i as int].servers[j as int] == data@[i as int].servers@[j as int]@,
                    k <= data@[i as int].servers@[j as int].services@.len(),
                    forall|a: int| 0 <= a < i ==> !company_has_service(#[trigger] v[a], id),
                    forall|b: int| 0 <= b < j ==> !server_has_service(#[trigger] v[i as int].servers[b], id),
                    forall|c: int| 0 <= c < k ==> (#[trigger] v[i as int].servers[j as int].services[c]).id != id,
                decreases data@[i as int].servers@[j as int].services@.len() - k,
            {
                if data[i].servers[j].services[k].id == id {
                    return Some((i, j, k));
                }
                k = k + 1;
            }
            assert(!server_has_service(v[i as int].servers[j as int], id));
            j = j + 1;
        }
        assert(!company_has_service(v[i as int], id));
        i = i + 1;
    }
    None
}

/// Sets protocol, host and port of the first service `service_id`; without
/// such a service, nothing changes.
pub fn update_service(data: &mut Vec<Company>, service_id: u128, protocol: Protocol, host: String, port: i32)
    ensures
        (forall|a: int| 0 <= a < old(data)@.len() ==> !company_has_service(#[trigger] data_view(old(data)@)[a], service_id))
            ==> data_view(final(data)@) == data_view(old(data)@),
        forall|i: int, j: int, k: int| #[trigger] first_service_at(data_view(old(data)@), service_id, i, j, k) ==> {
            let before = data_view(old(data)@);
            let sv = before[i].servers[j];
            data_view(final(data)@) == before.update(
                i,
                CompanyView {
                    servers: before[i].servers.update(
                        j,
                        ServerView {
                            services: sv.services.update(
                                k,
                                Service { protocol, host, port, ..sv.services[k] },
                            ),
                            ..sv
                        },
                    ),
                    ..before[i]
                },
            )
        },
{
    let ghost before = data_view(data@);
    let ghost h = host;
    match find_service(data, service_id) {
        Some((i, j, k)) => {
            let mut company = data.remove(i);
            let mut server = company.servers.remove(j);
            let mut service = server.services.remove(k);
            service.protocol = protocol;
            service.host = host;
            service.port = port;
            server.services.insert(k, service);
            company.servers.insert(j, server);
            data.insert(i, company);
            proof {
                assert forall|i2: int, j2: int, k2: int| #[trigger] first_service_at(before, service_id, i2, j2, k2)
                    implies i2 == i && j2 == j && k2 == k by {
                    if i2 < i {
                        assert(server_has_service(before[i2].servers[j2], service_id));
                        assert(company_has_service(before[i2], service_id));
                    } else if i2 > i {
                        assert(server_has_service(before[i as int].servers[j as int], service_id));
                        assert(company_has_service(before[i as int], service_id));
                    } else if j2 < j {
                        assert(server_has_service(before[i as int].servers[j2], service_id));
                    } else if j2 > j {
                        assert(server_has_service(before[i as int].servers[j as int], service_id));
                    } else if k2 > k {
                        assert(before[i as int].servers[j as int].services[k as int].id == service_id);
                    }
                }
                let sv = before[i as int].servers[j as int];
                let new_sv = ServerView {
                    services: sv.services.update(k as int, Service { protocol, host: h, port, ..sv.services[k as int] }),
                    ..sv
                };
                assert(server@.services =~= new_sv.services);
                assert(company@.servers =~= before[i as int].servers.update(j as int, new_sv));
                assert(data_view(data@) =~= before.update(
                    i as int,
                    CompanyView { servers: before[i as int].servers.update(j as int, new_sv), ..before[i as int] },
                ));
            }
        },
        None => {},
    }
}

} // verus!
